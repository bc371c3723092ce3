//! What holds of the file tree whatever is typed and whatever the file system
//! answers.

use vstd::prelude::*;

use crate::component::{FileTreeView, OutcomeView};
use crate::event::{Event, KeyEvent};
use crate::layout::Rect;
use crate::listing::Found;
use crate::path::Part;
use crate::task::{ReplyView, StepView, TaskView};

verus! {

/// A deletion starts only on a `y` in answer to the question, and concerns
/// exactly the entry that was asked about.
pub proof fn law_delete_needs_yes<D>(view: FileTreeView<D>, event: Event, line: Seq<char>)
    requires
        view.wf(),
    ensures
        match view.handle_event(event, line).1 {
            OutcomeView::Run(TaskView::Delete(deletion)) => {
                &&& view.confirm matches Some(confirm)
                &&& event matches Event::Key(key)
                &&& crate::command::is_yes(key)
                &&& deletion.path == crate::path::buf_text(&confirm.path)
                &&& deletion.recursive == confirm.recursive
            },
            _ => true,
        },
{
}

/// Any other key in answer to the question cancels it, and nothing else
/// happens.
pub proof fn law_other_keys_cancel<D>(view: FileTreeView<D>, key: KeyEvent, line: Seq<char>)
    requires
        view.wf(),
        view.confirm is Some,
        !crate::command::is_yes(key),
    ensures
        view.handle_event(Event::Key(key), line) == (
            FileTreeView { confirm: None, ..view },
            OutcomeView::Consumed,
        ),
{
}

/// The question is about the entry under the cursor; asking it deletes nothing.
pub proof fn law_delete_asks_first<D>(view: FileTreeView<D>, key: KeyEvent, line: Seq<char>)
    requires
        view.wf(),
        view.confirm is None,
        view.prompt is None,
        crate::command::command_of(key) == crate::command::Command::Delete,
    ensures
        ({
            let (after, outcome) = view.handle_event(Event::Key(key), line);
            &&& outcome is Consumed
            &&& after.tree == view.tree
            &&& match view.selected_entry() {
                Some(entry) => {
                    &&& after.confirm matches Some(confirm)
                    &&& confirm.path == entry.path
                    &&& confirm.recursive == entry.is_dir
                },
                None => after.confirm is None,
            }
        }),
{
}

/// Nothing is created over something that exists: the only way to a creation is
/// the answer that its path does not exist.
pub proof fn law_create_never_overwrites<D>(
    view: FileTreeView<D>,
    task: TaskView,
    reply: ReplyView,
    event: Event,
    line: Seq<char>,
    target: Seq<u8>,
)
    ensures
        view.advance(task, reply).1 matches StepView::Next(TaskView::Create(creation)) ==> {
            &&& task == TaskView::CheckCreate(creation)
            &&& reply == ReplyView::Exists(false)
        },
        !(view.handle_event(event, line).1 matches OutcomeView::Run(TaskView::Create(_))),
        !(view.reveal_path(target).1 matches StepView::Next(TaskView::Create(_))),
{
}

/// Nothing is renamed onto something that exists: the only way to a rename is
/// the answer that the new path does not exist.
pub proof fn law_rename_never_overwrites<D>(
    view: FileTreeView<D>,
    task: TaskView,
    reply: ReplyView,
    event: Event,
    line: Seq<char>,
    target: Seq<u8>,
)
    ensures
        view.advance(task, reply).1 matches StepView::Next(TaskView::Rename(renaming)) ==> {
            &&& task == TaskView::CheckRename(renaming)
            &&& reply == ReplyView::Exists(false)
        },
        !(view.handle_event(event, line).1 matches OutcomeView::Run(TaskView::Rename(_))),
        !(view.reveal_path(target).1 matches StepView::Next(TaskView::Rename(_))),
{
}

/// A path that is taken is answered with an error, and the tree stays as it is.
pub proof fn law_taken_is_refused<D>(view: FileTreeView<D>, task: TaskView)
    requires
        task is CheckCreate || task is CheckRename,
    ensures
        view.advance(task, ReplyView::Exists(true)).0 == view,
        view.advance(task, ReplyView::Exists(true)).1 is Report,
{
}

/// While a prompt is open it owns the keyboard: no event moves the cursor or
/// changes a row.
pub proof fn law_prompt_owns_keyboard<D>(view: FileTreeView<D>, event: Event, line: Seq<char>)
    requires
        view.wf(),
        view.prompt is Some,
    ensures
        view.handle_event(event, line).0.tree == view.tree,
        view.handle_event(event, line).0.confirm is None,
{
}

/// A prompt submitted with nothing but white space in it does nothing.
pub proof fn law_blank_name_does_nothing<D>(view: FileTreeView<D>, key: KeyEvent, line: Seq<char>)
    requires
        view.wf(),
        view.prompt is Some,
        crate::command::is_submit(key),
        forall|i: int| 0 <= i < line.len() ==> crate::text::white_space(#[trigger] line[i]),
    ensures
        view.handle_event(Event::Key(key), line) == (
            FileTreeView { prompt: None, ..view },
            OutcomeView::Consumed,
        ),
{
    lemma_blank(line);
}

proof fn lemma_blank(line: Seq<char>)
    requires
        forall|i: int| 0 <= i < line.len() ==> crate::text::white_space(#[trigger] line[i]),
    ensures
        crate::text::trimmed(line).len() == 0,
    decreases line.len(),
{
    if line.len() > 0 {
        assert(crate::text::white_space(line[0]));
        assert forall|i: int| 0 <= i < line.drop_first().len() implies crate::text::white_space(
            #[trigger] line.drop_first()[i],
        ) by {
            assert(line.drop_first()[i] == line[i + 1]);
        }
        lemma_blank(line.drop_first());
    }
}

/// The tree is modal: no key reaches the buffer underneath.
pub proof fn law_no_key_is_ignored<D>(view: FileTreeView<D>, key: KeyEvent, line: Seq<char>)
    ensures
        !(view.handle_event(Event::Key(key), line).1 is Ignored),
{
}

/// Whether hidden files are shown is settled when the tree is opened: every
/// directory is listed by the same rule.
pub proof fn law_one_rule_for_hidden<D>(
    view: FileTreeView<D>,
    event: Event,
    line: Seq<char>,
    task: TaskView,
    reply: ReplyView,
)
    ensures
        view.handle_event(event, line).0.show_hidden == view.show_hidden,
        view.advance(task, reply).0.show_hidden == view.show_hidden,
{
}

/// Creating, renaming and deleting forget the previews of the paths they
/// changed and of everything below these, and no other preview.
pub proof fn law_changes_invalidate_previews<D>(
    view: FileTreeView<D>,
    task: TaskView,
    key: Seq<Part>,
)
    ensures
        ({
            let kept = view.advance(task, ReplyView::Done).0.previews;
            let changed = match task {
                TaskView::Create(creation) => crate::path::parts_of(creation.path).is_prefix_of(key),
                TaskView::Rename(renaming) => {
                    ||| crate::path::parts_of(renaming.from).is_prefix_of(key)
                    ||| crate::path::parts_of(renaming.to).is_prefix_of(key)
                },
                TaskView::Delete(deletion) => crate::path::parts_of(deletion.path).is_prefix_of(key),
                _ => false,
            };
            &&& kept.contains_key(key) <==> view.previews.contains_key(key) && !changed
            &&& kept.contains_key(key) ==> kept[key] == view.previews[key]
        }),
{
}

/// What fails leaves every row as it was.
pub proof fn law_failure_keeps_rows<D>(view: FileTreeView<D>, task: TaskView, error: Seq<char>)
    ensures
        view.advance(task, ReplyView::Failed(error)).0.tree.rows == view.tree.rows,
        view.advance(task, ReplyView::Failed(error)).0.previews == view.previews,
{
}

/// A directory that is read again shows what was found in it now, all of it
/// shut.
pub proof fn law_refresh_shows_listing<D>(view: FileTreeView<D>, index: int, found: Seq<Found>)
    requires
        view.wf(),
        view.tree.rows.len() <= usize::MAX,
        0 <= index < view.tree.rows.len(),
        view.tree.rows[index].is_dir,
    ensures
        ({
            let after = view.refresh(Some(index), found).tree;
            let children = crate::listing::listing(found, view.show_hidden);
            &&& after.wf()
            &&& after.rows[index].expanded
            &&& after.rows[index].path == view.tree.rows[index].path
            &&& after.subtree_end(index) == index + 1 + children.len()
            &&& forall|k: int|
                0 <= k < children.len() ==> {
                    let row = #[trigger] after.rows[index + 1 + k];
                    row.path == children[k].0 && row.is_dir == children[k].1 && !row.expanded
                }
        }),
{
    let shut = view.tree.collapse(index);
    let children = crate::listing::listing(found, view.show_hidden);
    crate::model::lemma_collapse_wf(view.tree, index);
    crate::model::lemma_run_end(view.tree.rows, index + 1, view.tree.rows[index].depth as int);
    crate::model::lemma_expand_wf(shut, index, children);
    crate::model_laws::law_expand_shows_children(shut, index, children);
    let after = shut.expand(index, children);
    crate::model::lemma_run_end(after.rows, index + 1, shut.rows[index].depth as int);
    let end = after.subtree_end(index);
    let behind = index + 1 + children.len();
    if index + 1 < shut.rows.len() {
        assert(crate::model::follows(shut.rows, index + 1));
        assert(after.rows[behind] == shut.rows[index + 1]);
    }
    if end < behind {
        assert(after.rows[index + 1 + (end - index - 1)].depth == shut.rows[index].depth + 1);
    }
}

/// Opening a directory and shutting it again with the same key gives back the
/// tree as it was.
pub proof fn law_activate_toggles<D>(view: FileTreeView<D>, found: Seq<Found>)
    requires
        view.wf(),
        view.tree.rows.len() <= usize::MAX,
        view.tree.can_expand(view.tree.selected),
    ensures
        ({
            let index = view.tree.selected;
            let task = TaskView::Expand {
                index,
                path: crate::path::buf_text(&view.tree.rows[index].path),
            };
            let opened = view.advance(task, ReplyView::Listing(found)).0;
            &&& view.activate() == (view, OutcomeView::Run(task))
            &&& opened.tree.rows[index].expanded
            &&& opened.activate() == (view, OutcomeView::Consumed)
        }),
{
    let index = view.tree.selected;
    let children = crate::listing::listing(found, view.show_hidden);
    crate::model_laws::law_collapse_undoes_expand(view.tree, index, children);
}

/// Stepping out moves the cursor up exactly one level, from any row that is not
/// an open directory, until it is at the top; so pressing the key often enough
/// walks all the way up.
pub proof fn law_leave_walks_up<D>(view: FileTreeView<D>)
    requires
        view.wf(),
        view.tree.rows.len() > 0,
    ensures
        ({
            let before = view.tree.rows[view.tree.selected];
            let after = view.collapse_or_leave();
            let now = after.tree.rows[after.tree.selected];
            if before.is_dir && before.expanded {
                now.path == before.path && !now.expanded && now.depth == before.depth
            } else if before.depth > 0 {
                now.depth == before.depth - 1 && now.is_dir && after.tree.rows == view.tree.rows
            } else {
                after == view
            }
        }),
{
    crate::model_laws::law_parent(view.tree, view.tree.selected);
}

/// After scrolling, the cursor is on screen, and there is no empty room below
/// the last row that scrolling could have filled.
pub proof fn law_scroll_shows_cursor(offset: int, len: int, selected: int, height: int)
    requires
        0 <= offset,
        0 <= selected < len,
        height > 0,
    ensures
        ({
            let now = crate::component::scrolled(offset, len, selected, height);
            &&& 0 <= now <= selected < now + height
            &&& now == 0 || now + height <= len
        }),
{
}

/// Whenever the tree is drawn with room for a row, the cursor is among the rows
/// that are drawn.
pub proof fn law_drawing_shows_cursor<D>(view: FileTreeView<D>, inner: Rect)
    requires
        view.wf(),
        view.tree.rows.len() > 0,
        view.list_area(inner).height > 0,
    ensures
        ({
            let after = view.scroll_into(inner);
            &&& after.wf()
            &&& after.offset <= after.tree.selected < after.offset + after.drawn_rows()
        }),
{
}

/// Scrolling moves the view no further than it must: where the cursor is on
/// screen and the view does not reach past the end, it stays.
pub proof fn law_scroll_is_lazy(offset: int, len: int, selected: int, height: int)
    requires
        0 <= offset,
        0 <= selected < len,
        height > 0,
    ensures
        offset <= selected < offset + height && (offset == 0 || offset + height <= len)
            ==> crate::component::scrolled(offset, len, selected, height) == offset,
        ({
            let once = crate::component::scrolled(offset, len, selected, height);
            crate::component::scrolled(once, len, selected, height) == once
        }),
{
}

/// Renaming an entry to the name it has does nothing.
pub proof fn law_rename_to_itself<D>(view: FileTreeView<D>, from: Seq<u8>, name: Seq<char>)
    requires
        crate::path::parent_text(from) matches Some(parent) && crate::path::same_parts(
            crate::path::joined_text(parent, name),
            from,
        ),
    ensures
        view.rename(from, name) is Consumed,
{
}

} // verus!
