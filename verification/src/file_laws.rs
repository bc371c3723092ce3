//! What creating, renaming, deleting and reading come to, in terms of the rows,
//! the paths and the answers of the file system.

use std::path::PathBuf;
use vstd::prelude::*;

use crate::component::{FileTreeView, OutcomeView};
use crate::event::Event;
use crate::listing::Found;
use crate::model::{Entry, TreeView};
use crate::task::{
    CreationView, DeletionView, RefreshingView, RenamingView, ReplyView, StepView, TaskView,
};

verus! {

/// A deletion concerns the path it was asked for, and reads again the directory
/// that holds the row of the path, `i`: the one row above it that is one level
/// less deep with nothing but deeper rows from there down to it, or the root
/// where the row is at the top. It is never the entry's own row.
///
/// A rename reads the same directory again, and then looks for the new path.
pub proof fn law_rereads_the_home<D>(
    view: FileTreeView<D>,
    path: Seq<u8>,
    recursive: bool,
    to: Seq<u8>,
    i: int,
)
    requires
        view.tree.wf(),
        0 <= i < view.tree.rows.len(),
        crate::path::parts_of(crate::path::buf_text(&view.tree.rows[i].path))
            == crate::path::parts_of(path),
        forall|j: int|
            0 <= j < i ==> crate::path::parts_of(
                crate::path::buf_text(&(#[trigger] view.tree.rows[j]).path),
            ) != crate::path::parts_of(path),
    ensures
        ({
            let rows = view.tree.rows;
            let renamed = view.advance(
                TaskView::Rename(RenamingView { from: path, to }),
                ReplyView::Done,
            ).1;
            &&& view.delete(path, recursive) matches TaskView::Delete(deletion)
            &&& deletion.path == path
            &&& deletion.recursive == recursive
            &&& forall|p: int|
                deletion.index == Some(p) <==> {
                    &&& 0 <= p < i
                    &&& rows[i].depth == (#[trigger] rows[p]).depth + 1
                    &&& forall|j: int| p < j <= i ==> (#[trigger] rows[j]).depth > rows[p].depth
                }
            &&& deletion.index is None <==> rows[i].depth == 0
            &&& deletion.index != Some(i)
            &&& match deletion.index {
                Some(p) => rows[p].is_dir && deletion.directory == crate::path::buf_text(
                    &rows[p].path,
                ),
                None => deletion.directory == crate::path::buf_text(&view.tree.root),
            }
            &&& renamed == StepView::Next(
                TaskView::Refresh(
                    RefreshingView {
                        directory: deletion.directory,
                        index: deletion.index,
                        select: Some(to),
                    },
                ),
            )
        }),
{
    let rows = view.tree.rows;
    crate::tree_laws::law_position(view.tree, path, i);
    let deletion = view.delete(path, recursive)->Delete_0;
    lemma_home(view.tree, i, deletion.index);
}

/// The parent of a row is the one row above it that is one level less deep with
/// nothing but deeper rows in between.
proof fn lemma_home(tree: TreeView, i: int, index: Option<int>)
    requires
        tree.wf(),
        0 <= i < tree.rows.len(),
        index == tree.parent_of(i),
    ensures
        forall|p: int|
            index == Some(p) <==> {
                &&& 0 <= p < i
                &&& tree.rows[i].depth == (#[trigger] tree.rows[p]).depth + 1
                &&& forall|j: int| p < j <= i ==> (#[trigger] tree.rows[j]).depth > tree.rows[p].depth
            },
        index is None <==> tree.rows[i].depth == 0,
        index matches Some(p) ==> 0 <= p < i && tree.rows[p].is_dir && tree.rows[p].expanded,
{
    let rows = tree.rows;
    crate::model_laws::law_parent(tree, i);
    crate::tree_laws::law_no_parent(tree, i);
    assert forall|p: int|
        index == Some(p) <==> {
            &&& 0 <= p < i
            &&& rows[i].depth == (#[trigger] rows[p]).depth + 1
            &&& forall|j: int| p < j <= i ==> (#[trigger] rows[j]).depth > rows[p].depth
        } by {
        if 0 <= p < i {
            crate::tree_laws::law_parent_of(tree, i, p);
        }
        if index == Some(p) {
            crate::tree_laws::law_parent_of(tree, i, p);
            assert forall|j: int| p < j <= i implies (#[trigger] rows[j]).depth > rows[p].depth by {
                if j < i {
                    assert(rows[j].depth >= rows[i].depth);
                }
            }
        } else if 0 <= p < i && rows[i].depth == rows[p].depth + 1 && (forall|j: int|
            p < j <= i ==> (#[trigger] rows[j]).depth > rows[p].depth) {
            assert forall|j: int| p < j < i implies (#[trigger] rows[j]).depth >= rows[i].depth by {
                assert(rows[j].depth > rows[p].depth);
            }
        }
    }
}

/// What is created lands under the cursor where that is on a directory, and else
/// beside the row under the cursor, in the directory that holds it: the one row
/// above that is one level less deep with nothing but deeper rows in between,
/// or the root. In an empty tree it lands in the root. Before anything is
/// created it is asked whether the path is taken: the name, joined to that
/// directory.
pub proof fn law_creates_at_the_cursor<D>(
    view: FileTreeView<D>,
    name: Seq<char>,
    directory_wanted: bool,
)
    requires
        view.tree.wf(),
    ensures
        ({
            let rows = view.tree.rows;
            let at = view.tree.selected;
            &&& view.create(name, directory_wanted) matches TaskView::CheckCreate(creation)
            &&& creation.directory_wanted == directory_wanted
            &&& creation.path == crate::path::joined_text(creation.directory, name)
            &&& match creation.index {
                Some(p) => {
                    &&& 0 <= p < rows.len()
                    &&& rows[p].is_dir
                    &&& creation.directory == crate::path::buf_text(&rows[p].path)
                },
                None => creation.directory == crate::path::buf_text(&view.tree.root),
            }
            &&& rows.len() == 0 ==> creation.index is None
            &&& rows.len() > 0 && rows[at].is_dir ==> creation.index == Some(at)
            &&& rows.len() > 0 && !rows[at].is_dir ==> {
                &&& creation.index is None <==> rows[at].depth == 0
                &&& forall|p: int|
                    creation.index == Some(p) <==> {
                        &&& 0 <= p < at
                        &&& rows[at].depth == (#[trigger] rows[p]).depth + 1
                        &&& forall|j: int| p < j <= at ==> (#[trigger] rows[j]).depth > rows[p].depth
                    }
            }
        }),
{
    if view.tree.rows.len() > 0 {
        let at = view.tree.selected;
        lemma_home(view.tree, at, view.tree.parent_of(at));
    }
}

/// The directory that a row lives in is the one row above it that is one level
/// less deep with nothing but deeper rows in between. At the top, and where
/// there is no row, it is the root.
pub proof fn law_containing_directory<D>(view: FileTreeView<D>, i: int)
    requires
        view.tree.wf(),
    ensures
        ({
            let rows = view.tree.rows;
            let (directory, index) = view.containing_directory(i);
            &&& match index {
                Some(p) => directory == crate::path::buf_text(&rows[p].path),
                None => directory == crate::path::buf_text(&view.tree.root),
            }
            &&& index is None <==> !(0 <= i < rows.len()) || rows[i].depth == 0
            &&& 0 <= i < rows.len() ==> forall|p: int|
                index == Some(p) <==> {
                    &&& 0 <= p < i
                    &&& rows[i].depth == (#[trigger] rows[p]).depth + 1
                    &&& forall|j: int| p < j <= i ==> (#[trigger] rows[j]).depth > rows[p].depth
                }
        }),
{
    if 0 <= i < view.tree.rows.len() {
        lemma_home(view.tree, i, view.tree.parent_of(i));
    }
}

/// Something new lands in the target directory, whatever it is called.
pub proof fn law_target_directory<D>(view: FileTreeView<D>, name: Seq<char>, directory_wanted: bool)
    ensures
        ({
            &&& view.create(name, directory_wanted) matches TaskView::CheckCreate(creation)
            &&& view.target_directory() == (creation.directory, creation.index)
        }),
{
}

/// The entry under the cursor is that of the row that the cursor is on; an empty
/// tree has none.
pub proof fn law_selected_entry<D>(view: FileTreeView<D>)
    ensures
        view.tree.rows.len() == 0 ==> view.selected_entry() is None,
        view.tree.rows.len() > 0 ==> view.selected_entry() == Some(
            view.tree.rows[view.tree.selected],
        ),
{
}

/// An error names what was tried, the path, and the reason.
pub proof fn law_messages(action: Seq<char>, path: Seq<u8>, error: Seq<char>)
    ensures
        crate::task::failure_message(action, path, error) == "Failed to "@ + action + " "@
            + crate::path::displayed_text(path) + ": "@ + error,
        crate::task::taken_message(path) == crate::path::displayed_text(path) + " already exists"@,
{
}

/// What has no row is taken to live where something new would land.
pub proof fn law_home_of_the_invisible<D>(
    view: FileTreeView<D>,
    path: Seq<u8>,
    recursive: bool,
    name: Seq<char>,
)
    requires
        forall|j: int|
            0 <= j < view.tree.rows.len() ==> crate::path::parts_of(
                crate::path::buf_text(&(#[trigger] view.tree.rows[j]).path),
            ) != crate::path::parts_of(path),
    ensures
        ({
            &&& view.delete(path, recursive) matches TaskView::Delete(deletion)
            &&& view.create(name, false) matches TaskView::CheckCreate(creation)
            &&& deletion.path == path
            &&& deletion.recursive == recursive
            &&& deletion.directory == creation.directory
            &&& deletion.index == creation.index
        }),
{
    crate::tree_laws::law_position_of_nothing(view.tree, path);
}

/// A rename goes to the new name, joined to what is above the old path. The same
/// path does nothing, and with nothing above there is nothing to rename in.
/// Before anything is renamed it is asked whether the new path is taken.
pub proof fn law_renames_beside<D>(view: FileTreeView<D>, from: Seq<u8>, name: Seq<char>)
    ensures
        ({
            let outcome = view.rename(from, name);
            match crate::path::parent_text(from) {
                None => outcome == OutcomeView::Report("Cannot rename the filesystem root"@),
                Some(parent) => {
                    let to = crate::path::joined_text(parent, name);
                    &&& crate::path::parts_of(to) == crate::path::parts_of(from)
                        ==> outcome is Consumed
                    &&& crate::path::parts_of(to) != crate::path::parts_of(from) ==> outcome
                        == OutcomeView::Run(TaskView::CheckRename(RenamingView { from, to }))
                },
            }
        }),
{
}

/// What is found to be taken is reported by its path, and left alone; what is
/// not is created or renamed.
pub proof fn law_taken<D>(
    view: FileTreeView<D>,
    creation: CreationView,
    renaming: RenamingView,
)
    ensures
        view.advance(TaskView::CheckCreate(creation), ReplyView::Exists(true)) == (
            view,
            StepView::Report(crate::path::displayed_text(creation.path) + " already exists"@),
        ),
        view.advance(TaskView::CheckRename(renaming), ReplyView::Exists(true)) == (
            view,
            StepView::Report(crate::path::displayed_text(renaming.to) + " already exists"@),
        ),
        view.advance(TaskView::CheckCreate(creation), ReplyView::Exists(false)) == (
            view,
            StepView::Next(TaskView::Create(creation)),
        ),
        view.advance(TaskView::CheckRename(renaming), ReplyView::Exists(false)) == (
            view,
            StepView::Next(TaskView::Rename(renaming)),
        ),
{
}

/// After a change the directory that was worked out for it is read again, to
/// find what is there now; what was created or renamed is then looked for. Of
/// the tree nothing changes yet but the previews.
pub proof fn law_done<D>(
    view: FileTreeView<D>,
    creation: CreationView,
    renaming: RenamingView,
    deletion: DeletionView,
)
    ensures
        ({
            let (after, step) = view.advance(TaskView::Create(creation), ReplyView::Done);
            &&& after == (FileTreeView { previews: after.previews, ..view })
            &&& step == StepView::Next(
                TaskView::Refresh(
                    RefreshingView {
                        directory: creation.directory,
                        index: creation.index,
                        select: Some(creation.path),
                    },
                ),
            )
        }),
        ({
            let (after, step) = view.advance(TaskView::Delete(deletion), ReplyView::Done);
            &&& after == (FileTreeView { previews: after.previews, ..view })
            &&& step == StepView::Next(
                TaskView::Refresh(
                    RefreshingView {
                        directory: deletion.directory,
                        index: deletion.index,
                        select: None,
                    },
                ),
            )
        }),
        ({
            let (after, step) = view.advance(TaskView::Rename(renaming), ReplyView::Done);
            &&& after == (FileTreeView { previews: after.previews, ..view })
            &&& step matches StepView::Next(TaskView::Refresh(refreshing))
            &&& refreshing.select == Some(renaming.to)
            &&& view.delete(renaming.from, false) matches TaskView::Delete(deletion)
            &&& refreshing.directory == deletion.directory
            &&& refreshing.index == deletion.index
        }),
{
}

/// What does not work is reported: what was tried, on which path, and why. The
/// tree stays as it is, but for the cursor after a change whose directory
/// cannot be read: that goes to the path if it is visible.
pub proof fn law_failed<D>(
    view: FileTreeView<D>,
    creation: CreationView,
    renaming: RenamingView,
    deletion: DeletionView,
    refreshing: RefreshingView,
    index: int,
    path: Seq<u8>,
    error: Seq<char>,
)
    ensures
        view.advance(TaskView::Create(creation), ReplyView::Failed(error)) == (
            view,
            StepView::Report(
                "Failed to "@ + "create"@ + " "@ + crate::path::displayed_text(creation.path)
                    + ": "@ + error,
            ),
        ),
        view.advance(TaskView::Rename(renaming), ReplyView::Failed(error)) == (
            view,
            StepView::Report(
                "Failed to "@ + "rename"@ + " "@ + crate::path::displayed_text(renaming.from)
                    + ": "@ + error,
            ),
        ),
        view.advance(TaskView::Delete(deletion), ReplyView::Failed(error)) == (
            view,
            StepView::Report(
                "Failed to "@ + "delete"@ + " "@ + crate::path::displayed_text(deletion.path)
                    + ": "@ + error,
            ),
        ),
        view.advance(TaskView::Expand { index, path }, ReplyView::Failed(error)) == (
            view,
            StepView::Report(
                "Failed to "@ + "read"@ + " "@ + crate::path::displayed_text(path) + ": "@ + error,
            ),
        ),
        ({
            let (after, step) = view.advance(
                TaskView::Refresh(refreshing),
                ReplyView::Failed(error),
            );
            &&& step == StepView::Report(
                "Failed to "@ + "read"@ + " "@ + crate::path::displayed_text(refreshing.directory)
                    + ": "@ + error,
            )
            &&& match refreshing.select {
                Some(path) => after == (FileTreeView {
                    tree: view.tree.select_path(path),
                    ..view
                }),
                None => after == view,
            }
        }),
{
}

/// An answer to another question than the one that was asked changes nothing and
/// ends the work; so does a directory that cannot be read on the way to a path.
pub proof fn law_wrong_answers<D>(view: FileTreeView<D>, task: TaskView, reply: ReplyView)
    requires
        match task {
            TaskView::CheckCreate(_) | TaskView::CheckRename(_) => !(reply is Exists),
            TaskView::Create(_) | TaskView::Rename(_) | TaskView::Delete(_) => !(reply is Done)
                && !(reply is Failed),
            TaskView::Refresh(_) | TaskView::Expand { .. } => !(reply is Listing) && !(
            reply is Failed),
            TaskView::Reveal { .. } => !(reply is Listing),
        },
    ensures
        view.advance(task, reply) == (view, StepView::Finished),
{
}

/// The root read again shows exactly what is listed of it, by the rule for
/// hidden files that the tree was opened with: one row for each entry, in
/// order, at the top and shut. The cursor keeps its place as far as there are
/// rows.
pub proof fn law_rereads_the_root<D>(
    view: FileTreeView<D>,
    directory: Seq<u8>,
    found: Seq<Found>,
)
    requires
        0 <= view.tree.selected,
    ensures
        ({
            let (after, step) = view.advance(
                TaskView::Refresh(RefreshingView { directory, index: None, select: None }),
                ReplyView::Listing(found),
            );
            let list = crate::listing::listing(found, view.show_hidden);
            &&& step is Finished
            &&& after == (FileTreeView { tree: after.tree, ..view })
            &&& after.tree.root == view.tree.root
            &&& after.tree.rows.len() == list.len()
            &&& forall|k: int|
                0 <= k < list.len() ==> (#[trigger] after.tree.rows[k]) == (Entry {
                    path: list[k].0,
                    is_dir: list[k].1,
                    depth: 0,
                    expanded: false,
                })
            &&& view.tree.selected < list.len() ==> after.tree.selected == view.tree.selected
            &&& 0 < list.len() <= view.tree.selected ==> after.tree.selected == list.len() - 1
            &&& list.len() == 0 ==> after.tree.selected == 0
        }),
{
}

/// A directory read again shows exactly what is listed of it, by the rule for
/// hidden files that the tree was opened with: the rows that were nested under
/// it, up to `end`, give way to one row for each entry, in order, one level
/// deeper and shut. The rows above and below stay, and so does a cursor on them;
/// one on a row that gave way is on the directory.
pub proof fn law_rereads_a_directory<D>(
    view: FileTreeView<D>,
    directory: Seq<u8>,
    index: int,
    end: int,
    found: Seq<Found>,
)
    requires
        0 <= index < end <= view.tree.rows.len(),
        view.tree.rows[index].is_dir,
        view.tree.rows[index].depth < usize::MAX,
        if view.tree.rows[index].expanded {
            &&& forall|j: int|
                index < j < end ==> (#[trigger] view.tree.rows[j]).depth > view.tree.rows[index].depth
            &&& end < view.tree.rows.len() ==> view.tree.rows[end].depth
                <= view.tree.rows[index].depth
        } else {
            end == index + 1
        },
    ensures
        ({
            let (after, step) = view.advance(
                TaskView::Refresh(RefreshingView { directory, index: Some(index), select: None }),
                ReplyView::Listing(found),
            );
            let list = crate::listing::listing(found, view.show_hidden);
            let rows = view.tree.rows;
            &&& step is Finished
            &&& after == (FileTreeView { tree: after.tree, ..view })
            &&& after.tree.root == view.tree.root
            &&& after.tree.rows.len() == rows.len() - (end - index - 1) + list.len()
            &&& forall|j: int| 0 <= j < index ==> (#[trigger] after.tree.rows[j]) == rows[j]
            &&& after.tree.rows[index] == (Entry {
                path: rows[index].path,
                is_dir: true,
                depth: rows[index].depth,
                expanded: true,
            })
            &&& forall|k: int|
                0 <= k < list.len() ==> (#[trigger] after.tree.rows[index + 1 + k]) == (Entry {
                    path: list[k].0,
                    is_dir: list[k].1,
                    depth: (rows[index].depth + 1) as usize,
                    expanded: false,
                })
            &&& forall|j: int|
                end <= j < rows.len() ==> after.tree.rows[j - end + index + 1 + list.len()]
                    == #[trigger] rows[j]
            &&& view.tree.selected <= index ==> after.tree.selected == view.tree.selected
            &&& index < view.tree.selected < end ==> after.tree.selected == index
            &&& end <= view.tree.selected ==> after.tree.selected == view.tree.selected - end + index
                + 1 + list.len()
        }),
{
    let list = crate::listing::listing(found, view.show_hidden);
    if view.tree.rows[index].expanded {
        crate::tree_laws::law_collapse(view.tree, index, end);
    }
    let shut = view.tree.collapse(index);
    crate::tree_laws::law_expand(shut, index, list);
    let after = shut.expand(index, list);
    assert forall|j: int| end <= j < view.tree.rows.len() implies after.rows[j - end + index + 1
        + list.len()] == #[trigger] view.tree.rows[j] by {
        assert(shut.rows[j - (end - index - 1)] == view.tree.rows[j]);
    }
}

/// Reading again for a row that is no directory, or is not there, shows nothing
/// new.
pub proof fn law_rereads_nothing<D>(
    view: FileTreeView<D>,
    directory: Seq<u8>,
    index: int,
    found: Seq<Found>,
)
    requires
        0 <= index < view.tree.rows.len() ==> !view.tree.rows[index].is_dir
            && !view.tree.rows[index].expanded,
    ensures
        view.advance(
            TaskView::Refresh(RefreshingView { directory, index: Some(index), select: None }),
            ReplyView::Listing(found),
        ) == (view, StepView::Finished),
{
}

/// A path to look for afterwards only moves the cursor: to the first row that
/// shows it, if there is one.
pub proof fn law_selects_afterwards<D>(
    view: FileTreeView<D>,
    directory: Seq<u8>,
    index: Option<int>,
    path: Seq<u8>,
    found: Seq<Found>,
)
    ensures
        ({
            let plain = view.advance(
                TaskView::Refresh(RefreshingView { directory, index, select: None }),
                ReplyView::Listing(found),
            );
            let (after, step) = view.advance(
                TaskView::Refresh(RefreshingView { directory, index, select: Some(path) }),
                ReplyView::Listing(found),
            );
            &&& step is Finished
            &&& after == (FileTreeView { tree: plain.0.tree.select_path(path), ..view })
        }),
{
}

/// A directory that was read in order to open it shows exactly what is listed of
/// it, by the rule for hidden files that the tree was opened with.
pub proof fn law_opens_a_directory<D>(
    view: FileTreeView<D>,
    index: int,
    path: Seq<u8>,
    found: Seq<Found>,
)
    ensures
        view.advance(TaskView::Expand { index, path }, ReplyView::Listing(found)) == (
            FileTreeView {
                tree: view.tree.expand(
                    index,
                    crate::listing::listing(found, view.show_hidden),
                ),
                ..view
            },
            StepView::Finished,
        ),
{
}

/// A step towards a path asks for the directory in row `i` where that is to be
/// opened next, and changes nothing; where nothing is, it puts the cursor on the
/// path and is the last. What is read on the way is opened as by hand, and then
/// comes the next step.
pub proof fn law_reveal_steps<D>(
    view: FileTreeView<D>,
    text: Seq<u8>,
    i: int,
    directory: Seq<u8>,
    found: Seq<Found>,
)
    ensures
        view.tree.next_above(text) == Some(i) ==> view.reveal_path(text) == (
            view,
            StepView::Next(
                TaskView::Reveal {
                    index: i,
                    directory: crate::path::buf_text(&view.tree.rows[i].path),
                    target: text,
                },
            ),
        ),
        view.tree.next_above(text) is None ==> view.reveal_path(text) == (
            FileTreeView { tree: view.tree.select_path(text), ..view },
            StepView::Finished,
        ),
        view.advance(
            TaskView::Reveal { index: i, directory, target: text },
            ReplyView::Listing(found),
        ) == view.advance(
            TaskView::Expand { index: i, path: directory },
            ReplyView::Listing(found),
        ).0.reveal_path(text),
{
}

/// No answer touches the root, the scrolling, the rule for hidden files, the
/// prompt, the question or where previews are shown.
pub proof fn law_answers_leave_the_rest<D>(view: FileTreeView<D>, task: TaskView, reply: ReplyView)
    ensures
        ({
            let after = view.advance(task, reply).0;
            &&& after == (FileTreeView { tree: after.tree, previews: after.previews, ..view })
            &&& after.tree.root == view.tree.root
        }),
{
}

/// What is listed without dotfiles holds none.
proof fn lemma_nothing_hidden(found: Seq<Found>, k: int)
    requires
        0 <= k < crate::listing::listing(found, false).len(),
    ensures
        !crate::path::hidden_text(
            crate::path::buf_text(&crate::listing::listing(found, false)[k].0),
        ),
{
    let list = crate::listing::listing(found, false);
    let origin = crate::listing_laws::law_listing(found, false);
    assert(origin.contains(origin[k]));
    assert(found[origin[k]].path == list[k].0);
}

/// Where dotfiles are hidden they stay hidden: if no row shows one, none does
/// after any answer of the file system, and none after any event.
pub proof fn law_hidden_stays_hidden<D>(
    view: FileTreeView<D>,
    task: TaskView,
    reply: ReplyView,
    event: Event,
    line: Seq<char>,
)
    requires
        !view.show_hidden,
        forall|j: int|
            0 <= j < view.tree.rows.len() ==> !crate::path::hidden_text(
                crate::path::buf_text(&(#[trigger] view.tree.rows[j]).path),
            ),
    ensures
        ({
            let rows = view.advance(task, reply).0.tree.rows;
            forall|j: int|
                0 <= j < rows.len() ==> !crate::path::hidden_text(
                    crate::path::buf_text(&(#[trigger] rows[j]).path),
                )
        }),
        ({
            let rows = view.handle_event(event, line).0.tree.rows;
            forall|j: int|
                0 <= j < rows.len() ==> !crate::path::hidden_text(
                    crate::path::buf_text(&(#[trigger] rows[j]).path),
                )
        }),
{
    lemma_collapse_shows_no_more(view.tree, view.tree.selected);
    if let ReplyView::Listing(found) = reply {
        let list = crate::listing::listing(found, false);
        assert forall|k: int| 0 <= k < list.len() implies !crate::path::hidden_text(
            crate::path::buf_text(&(#[trigger] list[k]).0),
        ) by {
            lemma_nothing_hidden(found, k);
        }
        match task {
            TaskView::Refresh(refreshing) => {
                match refreshing.index {
                    Some(index) => {
                        lemma_collapse_shows_no_more(view.tree, index);
                        lemma_expand_shows_no_more(view.tree.collapse(index), index, list);
                    },
                    None => {},
                }
            },
            TaskView::Expand { index, path } => {
                lemma_expand_shows_no_more(view.tree, index, list);
            },
            TaskView::Reveal { index, directory, target } => {
                lemma_expand_shows_no_more(view.tree, index, list);
            },
            _ => {},
        }
    }
}

proof fn lemma_collapse_shows_no_more(tree: TreeView, i: int)
    requires
        forall|j: int|
            0 <= j < tree.rows.len() ==> !crate::path::hidden_text(
                crate::path::buf_text(&(#[trigger] tree.rows[j]).path),
            ),
    ensures
        ({
            let rows = tree.collapse(i).rows;
            forall|j: int|
                0 <= j < rows.len() ==> !crate::path::hidden_text(
                    crate::path::buf_text(&(#[trigger] rows[j]).path),
                )
        }),
{
    if 0 <= i < tree.rows.len() && tree.rows[i].expanded {
        crate::model::lemma_run_end(tree.rows, i + 1, tree.rows[i].depth as int);
        let end = tree.subtree_end(i);
        let rows = tree.collapse(i).rows;
        assert forall|j: int| 0 <= j < rows.len() implies !crate::path::hidden_text(
            crate::path::buf_text(&(#[trigger] rows[j]).path),
        ) by {
            let from = if j <= i {
                j
            } else {
                j - i - 1 + end
            };
            assert(rows[j].path == tree.rows[from].path);
        }
    }
}

proof fn lemma_expand_shows_no_more(tree: TreeView, i: int, list: Seq<(PathBuf, bool)>)
    requires
        forall|j: int|
            0 <= j < tree.rows.len() ==> !crate::path::hidden_text(
                crate::path::buf_text(&(#[trigger] tree.rows[j]).path),
            ),
        forall|k: int|
            0 <= k < list.len() ==> !crate::path::hidden_text(
                crate::path::buf_text(&(#[trigger] list[k]).0),
            ),
    ensures
        ({
            let rows = tree.expand(i, list).rows;
            forall|j: int|
                0 <= j < rows.len() ==> !crate::path::hidden_text(
                    crate::path::buf_text(&(#[trigger] rows[j]).path),
                )
        }),
{
    if 0 <= i < tree.rows.len() && tree.rows[i].is_dir && !tree.rows[i].expanded {
        let rows = tree.expand(i, list).rows;
        assert forall|j: int| 0 <= j < rows.len() implies !crate::path::hidden_text(
            crate::path::buf_text(&(#[trigger] rows[j]).path),
        ) by {
            if j <= i {
                assert(rows[j].path == tree.rows[j].path);
            } else if j <= i + list.len() {
                assert(rows[j].path == list[j - i - 1].0);
            } else {
                assert(rows[j] == tree.rows[j - list.len()]);
            }
        }
    }
}

} // verus!
