//! The tree opens onto the file that is being edited: the steps towards it come
//! to an end, and the cursor reaches it.

use std::path::PathBuf;
use vstd::prelude::*;

use crate::component::FileTreeView;
use crate::listing::Found;
use crate::model::{Entry, TreeView};
use crate::path::Part;
use crate::task::{ReplyView, StepView, TaskView};

verus! {

/// The components of an owned path.
pub open spec fn parts(path: PathBuf) -> Seq<Part> {
    crate::path::parts_of(crate::path::buf_text(&path))
}

/// What is found in a directory lies directly in it: each path is that of the
/// directory and one component more, and no path is found twice.
pub open spec fn lies_in(found: Seq<Found>, directory: Seq<Part>) -> bool {
    &&& forall|k: int|
        0 <= k < found.len() ==> {
            &&& parts((#[trigger] found[k]).path).len() == directory.len() + 1
            &&& directory.is_prefix_of(parts(found[k].path))
        }
    &&& forall|k: int, l: int|
        0 <= k < l < found.len() ==> parts((#[trigger] found[k]).path) != parts(
            (#[trigger] found[l]).path,
        )
}

/// Every directory is found to hold what lies directly in it. `read` says what
/// is found in the directory with a text.
pub open spec fn reads_directories(read: spec_fn(Seq<u8>) -> Seq<Found>) -> bool {
    forall|directory: Seq<u8>|
        lies_in(#[trigger] read(directory), crate::path::parts_of(directory))
}

/// What is listed of a directory holds the next component on the way to
/// `target`, as a directory unless it is `target` itself.
pub open spec fn holds_next(
    found: Seq<Found>,
    show_hidden: bool,
    directory: Seq<Part>,
    target: Seq<Part>,
) -> bool {
    exists|k: int|
        {
            &&& 0 <= k < found.len()
            &&& crate::listing::is_kept(#[trigger] found[k], show_hidden)
            &&& parts(found[k].path) == target.take(directory.len() as int + 1)
            &&& directory.len() + 1 < target.len() ==> found[k].is_dir == Some(true)
        }
}

/// Every directory above a path is found to hold the next component on the way
/// to it.
pub open spec fn leads_to(
    read: spec_fn(Seq<u8>) -> Seq<Found>,
    show_hidden: bool,
    root: Seq<Part>,
    target: Seq<Part>,
) -> bool {
    forall|directory: Seq<u8>|
        {
            let above = crate::path::parts_of(directory);
            root.is_prefix_of(above) && above.is_prefix_of(target) && above.len() < target.len()
        } ==> holds_next(
            #[trigger] read(directory),
            show_hidden,
            crate::path::parts_of(directory),
            target,
        )
}

/// What comes of at most `steps` steps towards a path, where every directory
/// that is asked for is read.
pub open spec fn followed<D>(
    state: (FileTreeView<D>, StepView),
    read: spec_fn(Seq<u8>) -> Seq<Found>,
    steps: int,
) -> (FileTreeView<D>, StepView)
    decreases steps,
{
    match state.1 {
        StepView::Next(TaskView::Reveal { index, directory, target }) => if steps <= 0 {
            state
        } else {
            followed(
                state.0.advance(
                    TaskView::Reveal { index, directory, target },
                    ReplyView::Listing(read(directory)),
                ),
                read,
                steps - 1,
            )
        },
        _ => state,
    }
}

/// A tree that has just been opened: the listing of its root, everything shut.
pub open spec fn just_opened<D>(
    view: FileTreeView<D>,
    read: spec_fn(Seq<u8>) -> Seq<Found>,
) -> bool {
    view.tree.rows == crate::model::child_rows(
        crate::listing::listing(
            read(crate::path::buf_text(&view.tree.root)),
            view.show_hidden,
        ),
        0,
    )
}

/// At most one shut directory is above the path.
spec fn one_way(view: TreeView, text: Seq<u8>) -> bool {
    forall|a: int, b: int|
        0 <= a < b < view.rows.len() ==> !(crate::model::shut_above(text)(#[trigger] view.rows[a])
            && crate::model::shut_above(text)(#[trigger] view.rows[b]))
}

/// The components of the path that still have to be opened.
spec fn to_go(view: TreeView, text: Seq<u8>) -> int {
    match view.next_above(text) {
        Some(i) => crate::path::parts_of(text).len() - parts(view.rows[i].path).len(),
        None => 0,
    }
}

/// The path is visible, or there is a directory to open next below the root.
spec fn on_the_way(view: TreeView, root: Seq<Part>, text: Seq<u8>) -> bool {
    ||| view.position(text) is Some
    ||| view.next_above(text) matches Some(i) && root.is_prefix_of(parts(view.rows[i].path))
}

proof fn lemma_prefix_transitive(a: Seq<Part>, b: Seq<Part>, c: Seq<Part>)
    requires
        a.is_prefix_of(b),
        b.is_prefix_of(c),
    ensures
        a.is_prefix_of(c),
{
    assert(a =~= c.subrange(0, a.len() as int)) by {
        assert forall|i: int| 0 <= i < a.len() implies a[i] == c[i] by {
            assert(a[i] == b.subrange(0, a.len() as int)[i]);
            assert(b[i] == c.subrange(0, b.len() as int)[i]);
        }
    }
}

/// Two beginnings of one path that are of the same length are the same.
proof fn lemma_prefix_unique(a: Seq<Part>, b: Seq<Part>, whole: Seq<Part>)
    requires
        a.is_prefix_of(whole),
        b.is_prefix_of(whole),
        a.len() == b.len(),
    ensures
        a == b,
{
    assert(a == whole.subrange(0, a.len() as int));
    assert(b == whole.subrange(0, b.len() as int));
}

/// A directory above a path has fewer components.
proof fn lemma_above_is_shorter(entry: Entry, text: Seq<u8>)
    requires
        crate::model::shut_above(text)(entry),
    ensures
        parts(entry.path).len() < crate::path::parts_of(text).len(),
{
    if parts(entry.path).len() >= crate::path::parts_of(text).len() {
        let whole = crate::path::parts_of(text);
        assert(whole =~= whole.subrange(0, whole.len() as int));
        lemma_prefix_unique(parts(entry.path), whole, whole);
    }
}

/// Every listed entry was found.
proof fn lemma_listed_was_found(found: Seq<Found>, show_hidden: bool, k: int) -> (from: int)
    requires
        0 <= k < crate::listing::listing(found, show_hidden).len(),
    ensures
        0 <= from < found.len(),
        crate::listing::listing(found, show_hidden)[k].0 == found[from].path,
{
    let list = crate::listing::listing(found, show_hidden);
    crate::listing::law_listing_contents(found, show_hidden, list[k]);
    assert(list.contains(list[k]));
    choose|i: int|
        0 <= i < found.len() && crate::listing::is_kept(#[trigger] found[i], show_hidden)
            && list[k] == (found[i].path, found[i].is_dir->0)
}

/// What lies in a directory is listed without a path twice.
proof fn lemma_listed_once(found: Seq<Found>, show_hidden: bool, directory: Seq<Part>)
    requires
        lies_in(found, directory),
    ensures
        ({
            let list = crate::listing::listing(found, show_hidden);
            forall|k: int, l: int|
                0 <= k < l < list.len() ==> parts((#[trigger] list[k]).0) != parts(
                    (#[trigger] list[l]).0,
                )
        }),
{
    lemma_kept_once(found, show_hidden, directory);
    lemma_arranged_once(crate::listing::kept(found, show_hidden));
}

proof fn lemma_kept_once(found: Seq<Found>, show_hidden: bool, directory: Seq<Part>)
    requires
        lies_in(found, directory),
    ensures
        ({
            let list = crate::listing::kept(found, show_hidden);
            forall|k: int, l: int|
                0 <= k < l < list.len() ==> parts((#[trigger] list[k]).0) != parts(
                    (#[trigger] list[l]).0,
                )
        }),
    decreases found.len(),
{
    if found.len() > 0 {
        let front = found.drop_last();
        assert(lies_in(front, directory)) by {
            assert forall|k: int| 0 <= k < front.len() implies {
                &&& parts((#[trigger] front[k]).path).len() == directory.len() + 1
                &&& directory.is_prefix_of(parts(front[k].path))
            } by {
                assert(front[k] == found[k]);
            }
            assert forall|k: int, l: int| 0 <= k < l < front.len() implies parts(
                (#[trigger] front[k]).path,
            ) != parts((#[trigger] front[l]).path) by {
                assert(front[k] == found[k] && front[l] == found[l]);
            }
        }
        lemma_kept_once(front, show_hidden, directory);
        let before = crate::listing::kept(front, show_hidden);
        let list = crate::listing::kept(found, show_hidden);
        assert forall|k: int, l: int| 0 <= k < l < list.len() implies parts((#[trigger] list[k]).0)
            != parts((#[trigger] list[l]).0) by {
            assert(list[k] == before[k]);
            if l < before.len() {
                assert(list[l] == before[l]);
            } else {
                crate::listing::lemma_kept(front, show_hidden, before[k]);
                assert(before.contains(before[k]));
                let i = choose|i: int|
                    0 <= i < front.len() && crate::listing::is_kept(
                        #[trigger] front[i],
                        show_hidden,
                    ) && before[k] == (front[i].path, front[i].is_dir->0);
                assert(front[i] == found[i]);
                assert(list[l].0 == found[found.len() - 1].path);
            }
        }
    }
}

proof fn lemma_arranged_once(entries: Seq<(PathBuf, bool)>)
    requires
        forall|k: int, l: int|
            0 <= k < l < entries.len() ==> parts((#[trigger] entries[k]).0) != parts(
                (#[trigger] entries[l]).0,
            ),
    ensures
        ({
            let list = crate::listing::arranged(entries);
            forall|k: int, l: int|
                0 <= k < l < list.len() ==> parts((#[trigger] list[k]).0) != parts(
                    (#[trigger] list[l]).0,
                )
        }),
    decreases entries.len(),
{
    if entries.len() > 0 {
        let front = entries.drop_last();
        let entry = entries.last();
        assert forall|k: int, l: int| 0 <= k < l < front.len() implies parts(
            (#[trigger] front[k]).0,
        ) != parts((#[trigger] front[l]).0) by {
            assert(front[k] == entries[k] && front[l] == entries[l]);
        }
        lemma_arranged_once(front);
        let before = crate::listing::arranged(front);
        let place = crate::listing::slot(before, entry);
        crate::listing::law_listing_in_order(front);
        crate::listing::lemma_slot(before, entry);
        crate::listing::law_listing_same_entries(front);
        assert forall|k: int| 0 <= k < before.len() implies parts((#[trigger] before[k]).0)
            != parts(entry.0) by {
            broadcast use vstd::seq_lib::group_to_multiset_ensures;

            assert(before.contains(before[k]));
            assert(before.to_multiset().count(before[k]) > 0);
            assert(front.contains(before[k]));
            let i = choose|i: int| 0 <= i < front.len() && front[i] == before[k];
            assert(entries[i] == front[i]);
            assert(entries[entries.len() - 1] == entry);
        }
        let list = crate::listing::arranged(entries);
        assert forall|k: int, l: int| 0 <= k < l < list.len() implies parts((#[trigger] list[k]).0)
            != parts((#[trigger] list[l]).0) by {
            let a = if k < place {
                k
            } else {
                k - 1
            };
            let b = if l < place {
                l
            } else {
                l - 1
            };
            if k == place {
                assert(list[k] == entry && list[l] == before[b]);
            } else if l == place {
                assert(list[l] == entry && list[k] == before[a]);
            } else {
                assert(list[k] == before[a] && list[l] == before[b]);
            }
        }
    }
}

/// Of what is listed of one directory, at most one entry is above a path.
proof fn lemma_one_child_above(
    found: Seq<Found>,
    show_hidden: bool,
    directory: Seq<Part>,
    text: Seq<u8>,
    k: int,
    l: int,
)
    requires
        lies_in(found, directory),
        0 <= k < l < crate::listing::listing(found, show_hidden).len(),
    ensures
        !({
            let list = crate::listing::listing(found, show_hidden);
            let whole = crate::path::parts_of(text);
            parts(list[k].0).is_prefix_of(whole) && parts(list[l].0).is_prefix_of(whole)
        }),
{
    let list = crate::listing::listing(found, show_hidden);
    let whole = crate::path::parts_of(text);
    let a = lemma_listed_was_found(found, show_hidden, k);
    let b = lemma_listed_was_found(found, show_hidden, l);
    assert(parts(found[a].path).len() == parts(found[b].path).len());
    lemma_listed_once(found, show_hidden, directory);
    if parts(list[k].0).is_prefix_of(whole) && parts(list[l].0).is_prefix_of(whole) {
        lemma_prefix_unique(parts(list[k].0), parts(list[l].0), whole);
    }
}

/// A step leaves at most one way, and less to go on it.
proof fn lemma_step_shortens(
    view: TreeView,
    text: Seq<u8>,
    found: Seq<Found>,
    show_hidden: bool,
    i: int,
)
    requires
        one_way(view, text),
        view.next_above(text) == Some(i),
        lies_in(found, parts(view.rows[i].path)),
    ensures
        ({
            let after = view.expand(i, crate::listing::listing(found, show_hidden));
            &&& one_way(after, text)
            &&& 0 <= to_go(after, text) < to_go(view, text)
            &&& after.next_above(text) matches Some(next) ==> parts(
                view.rows[i].path,
            ).is_prefix_of(parts(after.rows[next].path))
        }),
{
    let list = crate::listing::listing(found, show_hidden);
    let after = view.expand(i, list);
    let shut = crate::model::shut_above(text);
    let count = list.len() as int;
    crate::model::lemma_first_row(view.rows, shut, 0);
    crate::model::lemma_first_row(after.rows, shut, 0);
    lemma_above_is_shorter(view.rows[i], text);
    assert forall|j: int| 0 <= j < after.rows.len() && shut(#[trigger] after.rows[j]) implies i < j
        <= i + count by {
        if j < i {
            assert(after.rows[j] == view.rows[j]);
        } else if j > i + count {
            assert(after.rows[j] == view.rows[j - count]);
            assert(!(shut(view.rows[i]) && shut(view.rows[j - count])));
        }
    }
    assert forall|a: int, b: int| 0 <= a < b < after.rows.len() implies !(shut(
        #[trigger] after.rows[a],
    ) && shut(#[trigger] after.rows[b])) by {
        if shut(after.rows[a]) && shut(after.rows[b]) {
            lemma_one_child_above(
                found,
                show_hidden,
                parts(view.rows[i].path),
                text,
                a - i - 1,
                b - i - 1,
            );
            assert(after.rows[a].path == list[a - i - 1].0);
            assert(after.rows[b].path == list[b - i - 1].0);
        }
    }
    if let Some(next) = after.next_above(text) {
        let from = lemma_listed_was_found(found, show_hidden, next - i - 1);
        assert(after.rows[next].path == list[next - i - 1].0);
        assert(parts(found[from].path).len() == parts(view.rows[i].path).len() + 1);
        lemma_above_is_shorter(after.rows[next], text);
    }
}

/// A listing that holds the next component leads on: the path is in it, or the
/// directory to open next.
proof fn lemma_listing_leads_on(
    rows: Seq<Entry>,
    first: int,
    depth: int,
    found: Seq<Found>,
    show_hidden: bool,
    directory: Seq<Part>,
    text: Seq<u8>,
) -> (row: int)
    requires
        lies_in(found, directory),
        directory.is_prefix_of(crate::path::parts_of(text)),
        directory.len() < crate::path::parts_of(text).len(),
        holds_next(found, show_hidden, directory, crate::path::parts_of(text)),
        0 <= first,
        first + crate::listing::listing(found, show_hidden).len() <= rows.len(),
        forall|k: int|
            0 <= k < crate::listing::listing(found, show_hidden).len() ==> #[trigger] rows[first
                + k] == crate::model::child_rows(
                crate::listing::listing(found, show_hidden),
                depth,
            )[k],
    ensures
        0 <= row < rows.len(),
        crate::model::holds_path(text)(rows[row]) || crate::model::shut_above(text)(rows[row]),
        directory.is_prefix_of(parts(rows[row].path)),
{
    let whole = crate::path::parts_of(text);
    let list = crate::listing::listing(found, show_hidden);
    let k = choose|k: int|
        {
            &&& 0 <= k < found.len()
            &&& crate::listing::is_kept(#[trigger] found[k], show_hidden)
            &&& parts(found[k].path) == whole.take(directory.len() as int + 1)
            &&& directory.len() + 1 < whole.len() ==> found[k].is_dir == Some(true)
        };
    let entry = (found[k].path, found[k].is_dir->0);
    crate::listing::law_listing_contents(found, show_hidden, entry);
    assert(list.contains(entry));
    let l = choose|l: int| 0 <= l < list.len() && list[l] == entry;
    assert(rows[first + l].path == found[k].path);
    assert(parts(found[k].path).is_prefix_of(whole)) by {
        assert(whole.take(directory.len() as int + 1) =~= whole.subrange(0, directory.len() as int + 1));
    }
    if directory.len() + 1 == whole.len() {
        assert(whole.take(whole.len() as int) =~= whole);
    }
    first + l
}

/// A step stays on the way.
proof fn lemma_step_leads_on(
    view: TreeView,
    root: Seq<Part>,
    text: Seq<u8>,
    found: Seq<Found>,
    show_hidden: bool,
    i: int,
)
    requires
        one_way(view, text),
        on_the_way(view, root, text),
        view.next_above(text) == Some(i),
        lies_in(found, parts(view.rows[i].path)),
        root.is_prefix_of(parts(view.rows[i].path)) ==> holds_next(
            found,
            show_hidden,
            parts(view.rows[i].path),
            crate::path::parts_of(text),
        ),
    ensures
        on_the_way(view.expand(i, crate::listing::listing(found, show_hidden)), root, text),
{
    let list = crate::listing::listing(found, show_hidden);
    let after = view.expand(i, list);
    let holds = crate::model::holds_path(text);
    let shut = crate::model::shut_above(text);
    crate::model::lemma_first_row(view.rows, shut, 0);
    crate::model::lemma_first_row(view.rows, holds, 0);
    crate::model::lemma_first_row(after.rows, shut, 0);
    crate::model::lemma_first_row(after.rows, holds, 0);
    lemma_above_is_shorter(view.rows[i], text);
    if let Some(seen) = view.position(text) {
        let moved = if seen <= i {
            seen
        } else {
            seen + list.len()
        };
        assert(after.rows[moved].path == view.rows[seen].path);
        assert(holds(after.rows[moved]));
    } else {
        let depth = view.rows[i].depth + 1;
        assert forall|k: int| 0 <= k < list.len() implies #[trigger] after.rows[i + 1 + k]
            == crate::model::child_rows(list, depth)[k] by {}
        let row = lemma_listing_leads_on(
            after.rows,
            i + 1,
            depth,
            found,
            show_hidden,
            parts(view.rows[i].path),
            text,
        );
        if !holds(after.rows[row]) {
            lemma_step_shortens(view, text, found, show_hidden, i);
            let next = after.next_above(text)->0;
            lemma_prefix_transitive(
                root,
                parts(view.rows[i].path),
                parts(after.rows[next].path),
            );
        }
    }
}

/// From a state with one way, as many steps as there are components to go are
/// enough, and on the way they lead to the path.
proof fn lemma_followed<D>(
    view: FileTreeView<D>,
    text: Seq<u8>,
    read: spec_fn(Seq<u8>) -> Seq<Found>,
    root: Seq<Part>,
    steps: int,
)
    requires
        reads_directories(read),
        one_way(view.tree, text),
        to_go(view.tree, text) <= steps,
        0 <= steps,
    ensures
        ({
            let (after, step) = followed(view.reveal_path(text), read, steps);
            &&& step is Finished
            &&& on_the_way(view.tree, root, text) && leads_to(
                read,
                view.show_hidden,
                root,
                crate::path::parts_of(text),
            ) ==> {
                &&& 0 <= after.tree.selected < after.tree.rows.len()
                &&& crate::path::same_parts(
                    crate::path::buf_text(&after.tree.rows[after.tree.selected].path),
                    text,
                )
            }
        }),
    decreases steps,
{
    let shut = crate::model::shut_above(text);
    crate::model::lemma_first_row(view.tree.rows, shut, 0);
    crate::model::lemma_first_row(view.tree.rows, crate::model::holds_path(text), 0);
    match view.tree.next_above(text) {
        Some(i) => {
            lemma_above_is_shorter(view.tree.rows[i], text);
            let directory = crate::path::buf_text(&view.tree.rows[i].path);
            let found = read(directory);
            assert(lies_in(found, crate::path::parts_of(directory)));
            lemma_step_shortens(view.tree, text, found, view.show_hidden, i);
            let opened = view.opened(i, found);
            lemma_followed(opened, text, read, root, steps - 1);
            if on_the_way(view.tree, root, text) && leads_to(
                read,
                view.show_hidden,
                root,
                crate::path::parts_of(text),
            ) {
                lemma_step_leads_on(view.tree, root, text, found, view.show_hidden, i);
            }
        },
        None => {},
    }
}

/// A tree that has just been opened has at most one way to a path.
proof fn lemma_one_way_at_first<D>(
    view: FileTreeView<D>,
    read: spec_fn(Seq<u8>) -> Seq<Found>,
    text: Seq<u8>,
)
    requires
        reads_directories(read),
        just_opened(view, read),
    ensures
        one_way(view.tree, text),
        to_go(view.tree, text) <= crate::path::parts_of(text).len(),
{
    let root = crate::path::buf_text(&view.tree.root);
    let found = read(root);
    let shut = crate::model::shut_above(text);
    let rows = view.tree.rows;
    assert(lies_in(found, crate::path::parts_of(root)));
    assert forall|a: int, b: int| 0 <= a < b < rows.len() implies !(shut(#[trigger] rows[a]) && shut(
        #[trigger] rows[b],
    )) by {
        if shut(rows[a]) && shut(rows[b]) {
            lemma_one_child_above(
                found,
                view.show_hidden,
                crate::path::parts_of(root),
                text,
                a,
                b,
            );
        }
    }
}

/// The steps towards a path come to an end: after opening a tree there are at
/// most as many as the path has components, whatever the directories hold.
pub proof fn law_reveal_terminates<D>(
    view: FileTreeView<D>,
    text: Seq<u8>,
    read: spec_fn(Seq<u8>) -> Seq<Found>,
)
    requires
        reads_directories(read),
        just_opened(view, read),
    ensures
        followed(
            view.reveal_path(text),
            read,
            crate::path::parts_of(text).len() as int,
        ).1 is Finished,
{
    lemma_one_way_at_first(view, read, text);
    lemma_followed(
        view,
        text,
        read,
        crate::path::parts_of(crate::path::buf_text(&view.tree.root)),
        crate::path::parts_of(text).len() as int,
    );
}

/// The tree opens onto the file that is being edited: for a path below the
/// root, where every directory on the way is listed with the next component in
/// it, the cursor ends up on the path.
pub proof fn law_reveal_reaches_the_path<D>(
    view: FileTreeView<D>,
    text: Seq<u8>,
    read: spec_fn(Seq<u8>) -> Seq<Found>,
)
    requires
        reads_directories(read),
        just_opened(view, read),
        ({
            let root = crate::path::parts_of(crate::path::buf_text(&view.tree.root));
            let target = crate::path::parts_of(text);
            &&& root.is_prefix_of(target)
            &&& root.len() < target.len()
            &&& leads_to(read, view.show_hidden, root, target)
        }),
    ensures
        ({
            let (after, step) = followed(
                view.reveal_path(text),
                read,
                crate::path::parts_of(text).len() as int,
            );
            &&& step is Finished
            &&& after.selected_entry() matches Some(entry) && crate::path::same_parts(
                crate::path::buf_text(&entry.path),
                text,
            )
        }),
{
    let root_text = crate::path::buf_text(&view.tree.root);
    let root = crate::path::parts_of(root_text);
    let target = crate::path::parts_of(text);
    let found = read(root_text);
    let rows = view.tree.rows;
    assert(lies_in(found, root));
    assert(root.is_prefix_of(root)) by {
        assert(root =~= root.subrange(0, root.len() as int));
    }
    assert(holds_next(found, view.show_hidden, root, target));
    lemma_one_way_at_first(view, read, text);
    let row = lemma_listing_leads_on(rows, 0, 0, found, view.show_hidden, root, text);
    let shut = crate::model::shut_above(text);
    crate::model::lemma_first_row(rows, shut, 0);
    crate::model::lemma_first_row(rows, crate::model::holds_path(text), 0);
    if !crate::model::holds_path(text)(rows[row]) {
        let next = view.tree.next_above(text)->0;
        assert(next == row || !(shut(rows[next]) && shut(rows[row])));
    }
    lemma_followed(view, text, read, root, target.len() as int);
}

} // verus!
