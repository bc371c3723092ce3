//! What holds of every tree: how expanding, collapsing and the cursor fit
//! together.

use std::path::PathBuf;
use vstd::prelude::*;

use crate::model::TreeView;

verus! {

/// Collapsing a directory right after expanding it gives back the tree as it
/// was: the same rows, and the cursor where it was.
pub proof fn law_collapse_undoes_expand(view: TreeView, i: int, children: Seq<(PathBuf, bool)>)
    requires
        view.wf(),
        view.rows.len() <= usize::MAX,
        view.can_expand(i),
    ensures
        view.expand(i, children).collapse(i) == view,
{
    let opened = view.expand(i, children);
    crate::model::lemma_depth_bound(view, i);
    crate::model::lemma_run_end(opened.rows, i + 1, view.rows[i].depth as int);
    let end = opened.subtree_end(i);
    let behind = i + 1 + children.len();
    if i + 1 < view.rows.len() {
        assert(crate::model::follows(view.rows, i + 1));
        assert(opened.rows[behind] == view.rows[i + 1]);
    }
    assert(end == behind) by {
        if end < behind {
            assert(opened.rows[end].depth == view.rows[i].depth + 1);
        }
    }
    assert(opened.collapse(i).rows =~= view.rows);
}

/// Expanding a directory that is already open changes nothing.
pub proof fn law_expand_once(
    view: TreeView,
    i: int,
    children: Seq<(PathBuf, bool)>,
    again: Seq<(PathBuf, bool)>,
)
    ensures
        view.expand(i, children).expand(i, again) == view.expand(i, children),
{
}

/// Collapsing a directory that is already shut changes nothing.
pub proof fn law_collapse_once(view: TreeView, i: int)
    requires
        view.wf(),
    ensures
        view.collapse(i).collapse(i) == view.collapse(i),
{
    if view.can_collapse(i) {
        crate::model::lemma_run_end(view.rows, i + 1, view.rows[i].depth as int);
    }
}

/// Expanding shows the children, in the order given, directly behind their
/// parent, one level deeper and shut. The rows above and below stay.
pub proof fn law_expand_shows_children(view: TreeView, i: int, children: Seq<(PathBuf, bool)>)
    requires
        view.wf(),
        view.rows.len() <= usize::MAX,
        view.can_expand(i),
    ensures
        ({
            let after = view.expand(i, children);
            &&& after.rows.len() == view.rows.len() + children.len()
            &&& after.rows[i].expanded && after.rows[i].path == view.rows[i].path
            &&& forall|j: int| 0 <= j < i ==> after.rows[j] == #[trigger] view.rows[j]
            &&& forall|k: int|
                0 <= k < children.len() ==> {
                    let row = #[trigger] after.rows[i + 1 + k];
                    &&& row.path == children[k].0
                    &&& row.is_dir == children[k].1
                    &&& row.depth == view.rows[i].depth + 1
                    &&& !row.expanded
                }
            &&& forall|j: int|
                i < j < view.rows.len() ==> after.rows[j + children.len()] == #[trigger] view.rows[j]
        }),
{
    crate::model::lemma_depth_bound(view, i);
}

/// Collapsing takes away exactly the rows nested under the directory, however
/// deep: all of them are deeper than it, and the row that comes next is not.
pub proof fn law_collapse_removes_subtree(view: TreeView, i: int)
    requires
        view.wf(),
        view.can_collapse(i),
    ensures
        ({
            let after = view.collapse(i);
            let end = view.subtree_end(i);
            &&& i < end <= view.rows.len()
            &&& forall|j: int| i < j < end ==> (#[trigger] view.rows[j]).depth > view.rows[i].depth
            &&& after.rows.len() == view.rows.len() - (end - (i + 1))
            &&& !after.rows[i].expanded && after.rows[i].path == view.rows[i].path
            &&& forall|j: int| 0 <= j < i ==> after.rows[j] == #[trigger] view.rows[j]
            &&& forall|j: int|
                end <= j < view.rows.len() ==> after.rows[j - end + i + 1] == #[trigger] view.rows[j]
            &&& i + 1 < after.rows.len() ==> after.rows[i + 1].depth <= after.rows[i].depth
        }),
{
    crate::model::lemma_run_end(view.rows, i + 1, view.rows[i].depth as int);
}

/// A directory that was collapsed shows its children shut when it is expanded
/// again, whatever was open below it before.
pub proof fn law_collapse_forgets(view: TreeView, i: int, children: Seq<(PathBuf, bool)>)
    requires
        view.wf(),
        view.rows.len() <= usize::MAX,
        view.can_collapse(i),
    ensures
        ({
            let after = view.collapse(i).expand(i, children);
            &&& after.rows[i].expanded
            &&& after.subtree_end(i) == i + 1 + children.len()
            &&& forall|j: int| i < j < after.subtree_end(i) ==> !(#[trigger] after.rows[j]).expanded
        }),
{
    let shut = view.collapse(i);
    let after = shut.expand(i, children);
    crate::model::lemma_collapse_wf(view, i);
    crate::model::lemma_run_end(view.rows, i + 1, view.rows[i].depth as int);
    crate::model::lemma_depth_bound(shut, i);
    crate::model::lemma_run_end(after.rows, i + 1, shut.rows[i].depth as int);
    let end = after.subtree_end(i);
    let behind = i + 1 + children.len();
    if i + 1 < shut.rows.len() {
        assert(crate::model::follows(shut.rows, i + 1));
        assert(after.rows[behind] == shut.rows[i + 1]);
    }
    if end < behind {
        assert(after.rows[end].depth == shut.rows[i].depth + 1);
    }
}

/// The subtrees of a row's descendants lie inside its own.
pub proof fn law_subtrees_nest(view: TreeView, i: int, j: int)
    requires
        view.wf(),
        0 <= i < j < view.rows.len(),
        j < view.subtree_end(i),
    ensures
        view.subtree_end(j) <= view.subtree_end(i),
{
    crate::model::lemma_run_end(view.rows, i + 1, view.rows[i].depth as int);
    crate::model::lemma_run_end(view.rows, j + 1, view.rows[j].depth as int);
    let end = view.subtree_end(i);
    if end < view.subtree_end(j) {
        assert(view.rows[end].depth <= view.rows[i].depth);
        assert(view.rows[end].depth > view.rows[j].depth);
        assert(view.rows[j].depth > view.rows[i].depth);
    }
}

/// What was expanded below a directory does not matter once the directory is
/// collapsed.
pub proof fn law_collapse_absorbs_expand(
    view: TreeView,
    i: int,
    j: int,
    children: Seq<(PathBuf, bool)>,
)
    requires
        view.wf(),
        view.rows.len() <= usize::MAX,
        view.can_collapse(i),
        i < j < view.subtree_end(i),
    ensures
        view.expand(j, children).collapse(i) == view.collapse(i),
{
    if view.can_expand(j) {
        let after = view.expand(j, children);
        let depth = view.rows[i].depth as int;
        let end = view.subtree_end(i);
        crate::model::lemma_run_end(view.rows, i + 1, depth);
        crate::model::lemma_run_end(after.rows, i + 1, depth);
        crate::model::lemma_depth_bound(view, j);
        let found = after.subtree_end(i);
        let moved = end + children.len();
        assert(after.rows[i] == view.rows[i]);
        assert(found == moved) by {
            if found < moved {
                if found <= j {
                    assert(after.rows[found].depth == view.rows[found].depth);
                } else if found <= j + children.len() {
                    assert(after.rows[found].depth == view.rows[j].depth + 1);
                } else {
                    assert(after.rows[found] == view.rows[found - children.len()]);
                }
            } else if found > moved {
                assert(after.rows[moved] == view.rows[end]);
            }
        }
        assert(after.collapse(i).rows =~= view.collapse(i).rows);
    }
}

/// What was collapsed below a directory does not matter once the directory is
/// collapsed.
pub proof fn law_collapse_absorbs_collapse(view: TreeView, i: int, j: int)
    requires
        view.wf(),
        view.can_collapse(i),
        i < j < view.subtree_end(i),
    ensures
        view.collapse(j).collapse(i) == view.collapse(i),
{
    if view.can_collapse(j) {
        let after = view.collapse(j);
        let depth = view.rows[i].depth as int;
        let end = view.subtree_end(i);
        let inner = view.subtree_end(j);
        crate::model::lemma_run_end(view.rows, i + 1, depth);
        crate::model::lemma_run_end(view.rows, j + 1, view.rows[j].depth as int);
        law_subtrees_nest(view, i, j);
        crate::model::lemma_run_end(after.rows, i + 1, depth);
        let found = after.subtree_end(i);
        let gone = inner - (j + 1);
        let moved = end - gone;
        assert(after.rows[i] == view.rows[i]);
        assert(found == moved) by {
            if found < moved {
                if found <= j {
                    assert(after.rows[found].depth == view.rows[found].depth);
                } else {
                    assert(after.rows[found] == view.rows[found + gone]);
                }
            } else if found > moved {
                assert(after.rows[moved] == view.rows[end]);
            }
        }
        assert(after.collapse(i).rows =~= view.collapse(i).rows);
    }
}

/// Expanding leaves the cursor on the entry it was on.
pub proof fn law_expand_keeps_cursor(view: TreeView, i: int, children: Seq<(PathBuf, bool)>)
    requires
        view.wf(),
        view.rows.len() > 0,
    ensures
        ({
            let after = view.expand(i, children);
            let before = view.rows[view.selected];
            let now = after.rows[after.selected];
            now.path == before.path && now.is_dir == before.is_dir && now.depth == before.depth
        }),
{
}

/// Collapsing leaves the cursor on the entry it was on, or on the directory
/// when that entry was inside it: a row that vanishes from under the cursor
/// cannot leave it pointing at another file.
pub proof fn law_collapse_keeps_cursor(view: TreeView, i: int)
    requires
        view.wf(),
        view.rows.len() > 0,
    ensures
        ({
            let after = view.collapse(i);
            let now = after.rows[after.selected];
            if view.can_collapse(i) && i < view.selected < view.subtree_end(i) {
                after.selected == i && now.path == view.rows[i].path
            } else {
                now.path == view.rows[view.selected].path
            }
        }),
{
    if view.can_collapse(i) {
        crate::model::lemma_run_end(view.rows, i + 1, view.rows[i].depth as int);
    }
}

/// A row that has a parent row is one level below it and inside its subtree,
/// and that parent is an open directory. Only rows at depth 0 have none.
pub proof fn law_parent(view: TreeView, i: int)
    requires
        view.wf(),
        0 <= i < view.rows.len(),
    ensures
        match view.parent_of(i) {
            Some(parent) => {
                &&& 0 <= parent < i < view.subtree_end(parent)
                &&& view.rows[parent].is_dir && view.rows[parent].expanded
                &&& view.rows[i].depth == view.rows[parent].depth + 1
            },
            None => view.rows[i].depth == 0,
        },
{
    let depth = view.rows[i].depth as int;
    crate::model::lemma_last_shallower(view.rows, i, depth);
    match view.parent_of(i) {
        Some(parent) => {
            assert(crate::model::follows(view.rows, parent + 1));
            crate::model::lemma_run_end(view.rows, parent + 1, view.rows[parent].depth as int);
            let end = view.subtree_end(parent);
            assert(parent + 1 == i || view.rows[parent + 1].depth >= depth);
            if end <= i {
                assert(view.rows[end].depth >= depth);
            }
        },
        None => {
            assert(i == 0 || view.rows[0].depth >= depth);
        },
    }
}

/// The position of a path is the first row that shows it; there is none exactly
/// where no row does.
pub proof fn law_position_is_first(view: TreeView, text: Seq<u8>)
    ensures
        match view.position(text) {
            Some(found) => {
                &&& 0 <= found < view.rows.len()
                &&& crate::path::same_parts(crate::path::buf_text(&view.rows[found].path), text)
                &&& forall|j: int|
                    0 <= j < found ==> !crate::path::same_parts(
                        crate::path::buf_text(&(#[trigger] view.rows[j]).path),
                        text,
                    )
            },
            None => forall|j: int|
                0 <= j < view.rows.len() ==> !crate::path::same_parts(
                    crate::path::buf_text(&(#[trigger] view.rows[j]).path),
                    text,
                ),
        },
{
    crate::model::lemma_first_row(view.rows, crate::model::holds_path(text), 0);
    match view.position(text) {
        Some(found) => {
            assert forall|j: int| 0 <= j < found implies !crate::path::same_parts(
                crate::path::buf_text(&(#[trigger] view.rows[j]).path),
                text,
            ) by {
                assert(!crate::model::holds_path(text)(view.rows[j]));
            }
        },
        None => {
            assert forall|j: int| 0 <= j < view.rows.len() implies !crate::path::same_parts(
                crate::path::buf_text(&(#[trigger] view.rows[j]).path),
                text,
            ) by {
                assert(!crate::model::holds_path(text)(view.rows[j]));
            }
        },
    }
}

/// A row is found by its path exactly while it is visible: collapsing a
/// directory hides the rows below it, provided that no two rows show the same
/// path.
pub proof fn law_position_visible(view: TreeView, i: int, j: int)
    requires
        view.wf(),
        view.can_collapse(i),
        i < j < view.subtree_end(i),
        forall|a: int, b: int|
            0 <= a < b < view.rows.len() ==> !crate::path::same_parts(
                crate::path::buf_text(&(#[trigger] view.rows[a]).path),
                crate::path::buf_text(&(#[trigger] view.rows[b]).path),
            ),
    ensures
        view.position(crate::path::buf_text(&view.rows[j].path)) == Some(j),
        view.collapse(i).position(crate::path::buf_text(&view.rows[j].path)) is None,
{
    let text = crate::path::buf_text(&view.rows[j].path);
    let after = view.collapse(i);
    let end = view.subtree_end(i);
    crate::model::lemma_run_end(view.rows, i + 1, view.rows[i].depth as int);
    crate::model::lemma_first_row(view.rows, crate::model::holds_path(text), 0);
    crate::model::lemma_first_row(after.rows, crate::model::holds_path(text), 0);
    match view.position(text) {
        Some(found) => {
            assert(found == j || !crate::path::same_parts(
                crate::path::buf_text(&view.rows[found].path),
                crate::path::buf_text(&view.rows[j].path),
            ));
        },
        None => {
            assert(!crate::model::holds_path(text)(view.rows[j]));
        },
    }
    if let Some(found) = after.position(text) {
        let origin = if found <= i {
            found
        } else {
            found - (i + 1) + end
        };
        assert(after.rows[found].path == view.rows[origin].path);
        assert(origin != j);
        assert(view.rows[origin].path == view.rows[origin].path && view.rows[j].path
            == view.rows[j].path);
    }
}

/// Moving down and then up, or up and then down, comes back to the same row:
/// both wrap around.
pub proof fn law_next_and_prev(view: TreeView)
    requires
        view.wf(),
    ensures
        view.select_next().wf() && view.select_next().select_prev() == view,
        view.select_prev().wf() && view.select_prev().select_next() == view,
{
}

/// Moving down from the last row reaches the first, and moving up from the
/// first reaches the last.
pub proof fn law_wraps(view: TreeView)
    requires
        view.wf(),
        view.rows.len() > 0,
    ensures
        view.select(view.rows.len() - 1).select_next() == view.select(0),
        view.select(0).select_prev() == view.select(view.rows.len() - 1),
{
}

/// A jump stops at the ends: it never wraps, and a jump past an end lands on
/// it.
pub proof fn law_jump_stops(view: TreeView, delta: int)
    requires
        view.wf(),
    ensures
        view.select_by(delta).wf(),
        view.select_by(delta).rows == view.rows,
        delta >= 0 ==> view.select_by(delta).selected >= view.selected,
        delta <= 0 ==> view.select_by(delta).selected <= view.selected,
        view.rows.len() > 0 && view.selected + delta >= view.rows.len() ==> view.select_by(delta)
            == view.select(view.rows.len() - 1),
        view.rows.len() > 0 && view.selected + delta < 0 ==> view.select_by(delta) == view.select(0),
{
}

/// Starting over leaves every row at the top and shut.
pub proof fn law_reset_shuts_all(view: TreeView, children: Seq<(PathBuf, bool)>)
    requires
        view.wf(),
    ensures
        view.reset(children).wf(),
        view.reset(children).rows.len() == children.len(),
        forall|j: int|
            0 <= j < children.len() ==> {
                let row = #[trigger] view.reset(children).rows[j];
                row.path == children[j].0 && row.depth == 0 && !row.expanded
            },
{
}

/// Each step towards a path names a shut directory above it, and expanding
/// that directory takes it out of the way.
pub proof fn law_reveal_progress(view: TreeView, text: Seq<u8>, children: Seq<(PathBuf, bool)>)
    requires
        view.wf(),
    ensures
        match view.next_above(text) {
            Some(i) => {
                &&& view.can_expand(i)
                &&& view.expand(i, children).rows[i].expanded
                &&& match view.expand(i, children).next_above(text) {
                    Some(next) => next > i,
                    None => true,
                }
            },
            None => true,
        },
{
    crate::model::lemma_first_row(view.rows, crate::model::shut_above(text), 0);
    if let Some(i) = view.next_above(text) {
        let after = view.expand(i, children);
        crate::model::lemma_first_row(after.rows, crate::model::shut_above(text), 0);
        if let Some(next) = after.next_above(text) {
            if next < i {
                assert(after.rows[next] == view.rows[next]);
            }
        }
    }
}

/// Once there is no step left towards a path, every visible directory above it
/// is open, and the cursor goes to the path if that is visible.
pub proof fn law_reveal_ends(view: TreeView, text: Seq<u8>)
    requires
        view.wf(),
        view.next_above(text) is None,
    ensures
        forall|j: int|
            0 <= j < view.rows.len() && (#[trigger] view.rows[j]).is_dir && crate::path::parts_of(
                crate::path::buf_text(&view.rows[j].path),
            ).is_prefix_of(crate::path::parts_of(text)) && !crate::path::same_parts(
                crate::path::buf_text(&view.rows[j].path),
                text,
            ) ==> view.rows[j].expanded,
        match view.position(text) {
            Some(found) => view.select_path(text) == (TreeView { selected: found, ..view }),
            None => view.select_path(text) == view,
        },
{
    crate::model::lemma_first_row(view.rows, crate::model::shut_above(text), 0);
    crate::model::lemma_first_row(view.rows, crate::model::holds_path(text), 0);
    assert forall|j: int|
        0 <= j < view.rows.len() && (#[trigger] view.rows[j]).is_dir && crate::path::parts_of(
            crate::path::buf_text(&view.rows[j].path),
        ).is_prefix_of(crate::path::parts_of(text)) && !crate::path::same_parts(
            crate::path::buf_text(&view.rows[j].path),
            text,
        ) implies view.rows[j].expanded by {
        assert(!crate::model::shut_above(text)(view.rows[j]));
    }
}

/// A path that lies below no row leaves the rows as they are: a file from
/// outside the root leaves the tree shut.
pub proof fn law_reveal_outside(view: TreeView, text: Seq<u8>)
    requires
        view.wf(),
        forall|j: int|
            0 <= j < view.rows.len() ==> !crate::path::parts_of(
                crate::path::buf_text(&(#[trigger] view.rows[j]).path),
            ).is_prefix_of(crate::path::parts_of(text)),
    ensures
        view.next_above(text) is None,
        view.select_path(text) == view,
{
    crate::model::lemma_first_row(view.rows, crate::model::shut_above(text), 0);
    crate::model::lemma_first_row(view.rows, crate::model::holds_path(text), 0);
    if let Some(found) = view.position(text) {
        let parts = crate::path::parts_of(text);
        assert(parts =~= parts.subrange(0, parts.len() as int));
        assert(parts.is_prefix_of(parts));
    }
}

} // verus!
