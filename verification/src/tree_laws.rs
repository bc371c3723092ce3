//! What each operation on a tree leaves of its rows and its cursor, row by row.

use std::path::PathBuf;
use vstd::prelude::*;

use crate::model::{Entry, TreeView};

verus! {

/// Expanding a shut directory opens it and puts its children behind it, one
/// level deeper, shut, in the order given. Every other row stays as it is and
/// where it is, or moves down by as many places as there are children; so does
/// the cursor, with its row. On anything else nothing happens.
pub proof fn law_expand(view: TreeView, i: int, children: Seq<(PathBuf, bool)>)
    ensures
        ({
            let after = view.expand(i, children);
            if 0 <= i < view.rows.len() && view.rows[i].is_dir && !view.rows[i].expanded {
                &&& after.root == view.root
                &&& after.rows.len() == view.rows.len() + children.len()
                &&& forall|j: int| 0 <= j < i ==> (#[trigger] after.rows[j]) == view.rows[j]
                &&& after.rows[i] == (Entry {
                    path: view.rows[i].path,
                    is_dir: true,
                    depth: view.rows[i].depth,
                    expanded: true,
                })
                &&& forall|k: int|
                    0 <= k < children.len() ==> {
                        let row = #[trigger] after.rows[i + 1 + k];
                        &&& row.path == children[k].0
                        &&& row.is_dir == children[k].1
                        &&& !row.expanded
                        &&& view.rows[i].depth < usize::MAX ==> row.depth == view.rows[i].depth + 1
                    }
                &&& forall|j: int|
                    i < j < view.rows.len() ==> after.rows[j + children.len()]
                        == #[trigger] view.rows[j]
                &&& view.selected <= i ==> after.selected == view.selected
                &&& view.selected > i ==> after.selected == view.selected + children.len()
            } else {
                after == view
            }
        }),
{
}

/// Collapsing an open directory shuts it and takes away the rows up to `end`,
/// where `end` is the next row that is not deeper, or the end of the list. The
/// rows below move up; so does the cursor, with its row, or onto the directory
/// where its row is gone.
pub proof fn law_collapse(view: TreeView, i: int, end: int)
    requires
        0 <= i < end <= view.rows.len(),
        view.rows[i].expanded,
        forall|j: int| i < j < end ==> (#[trigger] view.rows[j]).depth > view.rows[i].depth,
        end < view.rows.len() ==> view.rows[end].depth <= view.rows[i].depth,
    ensures
        ({
            let after = view.collapse(i);
            let gone = end - i - 1;
            &&& after.root == view.root
            &&& after.rows.len() == view.rows.len() - gone
            &&& forall|j: int| 0 <= j < i ==> (#[trigger] after.rows[j]) == view.rows[j]
            &&& after.rows[i] == (Entry {
                path: view.rows[i].path,
                is_dir: view.rows[i].is_dir,
                depth: view.rows[i].depth,
                expanded: false,
            })
            &&& forall|j: int|
                end <= j < view.rows.len() ==> after.rows[j - gone] == #[trigger] view.rows[j]
            &&& view.selected <= i ==> after.selected == view.selected
            &&& i < view.selected < end ==> after.selected == i
            &&& end <= view.selected ==> after.selected == view.selected - gone
        }),
{
    crate::model::lemma_run_end(view.rows, i + 1, view.rows[i].depth as int);
    let found = view.subtree_end(i);
    if found < end {
        assert(view.rows[found].depth > view.rows[i].depth);
    } else if end < found {
        assert(view.rows[end].depth > view.rows[i].depth);
    }
}

/// Collapsing anything but an open directory does nothing.
pub proof fn law_collapse_nothing(view: TreeView, i: int)
    requires
        !(0 <= i < view.rows.len()) || !view.rows[i].expanded,
    ensures
        view.collapse(i) == view,
{
}

/// Where the subtree of a row ends: behind it come rows that are deeper, and
/// then one that is not, or none.
pub proof fn law_subtree_end(view: TreeView, i: int, end: int)
    requires
        0 <= i < end <= view.rows.len(),
    ensures
        view.subtree_end(i) == end <==> {
            &&& forall|j: int| i < j < end ==> (#[trigger] view.rows[j]).depth > view.rows[i].depth
            &&& end < view.rows.len() ==> view.rows[end].depth <= view.rows[i].depth
        },
{
    crate::model::lemma_run_end(view.rows, i + 1, view.rows[i].depth as int);
    let found = view.subtree_end(i);
    if end < found {
        assert(view.rows[end].depth > view.rows[i].depth);
    }
    if found < end && (forall|j: int|
        i < j < end ==> (#[trigger] view.rows[j]).depth > view.rows[i].depth) {
        assert(view.rows[found].depth > view.rows[i].depth);
    }
}

/// Moving the cursor changes nothing but the cursor. Down and up go round the
/// rows in a circle; to a row, it goes there or stays where there is none; by a
/// distance, it goes as far as there are rows.
pub proof fn law_cursor(view: TreeView, i: int, distance: int)
    requires
        view.rows.len() > 0,
        0 <= view.selected < view.rows.len(),
    ensures
        ({
            let len = view.rows.len() as int;
            let next = view.select_next();
            let prev = view.select_prev();
            let there = view.select(i);
            let by = view.select_by(distance);
            &&& next == (TreeView { selected: next.selected, ..view })
            &&& prev == (TreeView { selected: prev.selected, ..view })
            &&& there == (TreeView { selected: there.selected, ..view })
            &&& by == (TreeView { selected: by.selected, ..view })
            &&& 0 <= next.selected < len && (next.selected == view.selected + 1 || next.selected
                == view.selected + 1 - len)
            &&& 0 <= prev.selected < len && (prev.selected == view.selected - 1 || prev.selected
                == view.selected - 1 + len)
            &&& 0 <= i < len ==> there.selected == i
            &&& !(0 <= i < len) ==> there.selected == view.selected
            &&& 0 <= by.selected < len
            &&& 0 <= view.selected + distance < len ==> by.selected == view.selected + distance
            &&& view.selected + distance >= len ==> by.selected == len - 1
            &&& view.selected + distance < 0 ==> by.selected == 0
        }),
{
}

/// In an empty tree there is nowhere to move.
pub proof fn law_cursor_of_nothing(view: TreeView, i: int, distance: int)
    requires
        view.rows.len() == 0,
    ensures
        view.select_next() == view,
        view.select_prev() == view,
        view.select(i) == view,
        view.select_by(distance) == view,
{
}

/// Starting over shows the children of the root, all at the top and shut, in
/// the order given. The cursor keeps its place, or takes the last one there is.
pub proof fn law_reset(view: TreeView, children: Seq<(PathBuf, bool)>)
    requires
        0 <= view.selected,
    ensures
        ({
            let after = view.reset(children);
            &&& after.root == view.root
            &&& after.rows.len() == children.len()
            &&& forall|k: int|
                0 <= k < children.len() ==> (#[trigger] after.rows[k]) == (Entry {
                    path: children[k].0,
                    is_dir: children[k].1,
                    depth: 0,
                    expanded: false,
                })
            &&& view.selected < children.len() ==> after.selected == view.selected
            &&& 0 < children.len() <= view.selected ==> after.selected == children.len() - 1
            &&& children.len() == 0 ==> after.selected == 0
        }),
{
}

/// The rows of a listing: one for each entry, in order, with its path and its
/// kind, at the depth asked for and shut.
pub proof fn law_child_rows(children: Seq<(PathBuf, bool)>, depth: usize)
    ensures
        ({
            let rows = crate::model::child_rows(children, depth as int);
            &&& rows.len() == children.len()
            &&& forall|k: int|
                0 <= k < children.len() ==> (#[trigger] rows[k]) == (Entry {
                    path: children[k].0,
                    is_dir: children[k].1,
                    depth,
                    expanded: false,
                })
        }),
{
}

/// A path is in the first row that has the same components, and the cursor is
/// put there and nowhere else.
pub proof fn law_position(view: TreeView, text: Seq<u8>, i: int)
    requires
        0 <= i < view.rows.len(),
        crate::path::parts_of(crate::path::buf_text(&view.rows[i].path)) == crate::path::parts_of(
            text,
        ),
        forall|j: int|
            0 <= j < i ==> crate::path::parts_of(
                crate::path::buf_text(&(#[trigger] view.rows[j]).path),
            ) != crate::path::parts_of(text),
    ensures
        view.position(text) == Some(i),
        view.select_path(text) == (TreeView { selected: i, ..view }),
{
    crate::model::lemma_first_row(view.rows, crate::model::holds_path(text), 0);
    match view.position(text) {
        Some(found) => {
            if found < i {
                assert(crate::model::holds_path(text)(view.rows[found]));
            } else if i < found {
                assert(!crate::model::holds_path(text)(view.rows[i]));
            }
        },
        None => {
            assert(!crate::model::holds_path(text)(view.rows[i]));
        },
    }
}

/// A path that no row has the components of is nowhere, and the cursor stays.
pub proof fn law_position_of_nothing(view: TreeView, text: Seq<u8>)
    requires
        forall|j: int|
            0 <= j < view.rows.len() ==> crate::path::parts_of(
                crate::path::buf_text(&(#[trigger] view.rows[j]).path),
            ) != crate::path::parts_of(text),
    ensures
        view.position(text) is None,
        view.select_path(text) == view,
{
    crate::model::lemma_first_row(view.rows, crate::model::holds_path(text), 0);
    if let Some(found) = view.position(text) {
        assert(crate::model::holds_path(text)(view.rows[found]));
    }
}

/// The parent of a row is the nearest row above it that is less deep.
pub proof fn law_parent_of(view: TreeView, i: int, parent: int)
    requires
        0 <= i < view.rows.len(),
        0 <= parent < i,
    ensures
        view.parent_of(i) == Some(parent) <==> {
            &&& view.rows[parent].depth < view.rows[i].depth
            &&& forall|j: int|
                parent < j < i ==> (#[trigger] view.rows[j]).depth >= view.rows[i].depth
        },
{
    crate::model::lemma_last_shallower(view.rows, i, view.rows[i].depth as int);
    match view.parent_of(i) {
        Some(found) => {
            assert(found < parent ==> view.rows[parent].depth >= view.rows[i].depth);
            assert(view.rows[found].depth < view.rows[i].depth);
        },
        None => {
            assert(view.rows[parent].depth >= view.rows[i].depth);
        },
    }
}

/// A row has no parent exactly where no row above it is less deep; where there
/// is no row there is no parent.
pub proof fn law_no_parent(view: TreeView, i: int)
    ensures
        view.parent_of(i) is None <==> {
            ||| !(0 <= i < view.rows.len())
            ||| forall|j: int| 0 <= j < i ==> (#[trigger] view.rows[j]).depth >= view.rows[i].depth
        },
{
    if 0 <= i < view.rows.len() {
        crate::model::lemma_last_shallower(view.rows, i, view.rows[i].depth as int);
        if let Some(found) = view.parent_of(i) {
            assert(view.rows[found].depth < view.rows[i].depth);
        }
    }
}

/// The directory to open next on the way to a path is the first row that is a
/// shut directory with fewer components than the path, all of them its first.
pub proof fn law_next_above(view: TreeView, text: Seq<u8>, i: int)
    requires
        0 <= i < view.rows.len(),
    ensures
        view.next_above(text) == Some(i) <==> {
            let target = crate::path::parts_of(text);
            let row = crate::path::parts_of(crate::path::buf_text(&view.rows[i].path));
            &&& view.rows[i].is_dir
            &&& !view.rows[i].expanded
            &&& row.len() < target.len()
            &&& row == target.take(row.len() as int)
            &&& forall|j: int|
                0 <= j < i ==> {
                    let above = crate::path::parts_of(
                        crate::path::buf_text(&(#[trigger] view.rows[j]).path),
                    );
                    ||| !view.rows[j].is_dir
                    ||| view.rows[j].expanded
                    ||| above.len() >= target.len()
                    ||| above != target.take(above.len() as int)
                }
        },
{
    let shut = crate::model::shut_above(text);
    let target = crate::path::parts_of(text);
    crate::model::lemma_first_row(view.rows, shut, 0);
    assert forall|j: int| 0 <= j < view.rows.len() implies (shut(#[trigger] view.rows[j]) <==> {
        let above = crate::path::parts_of(crate::path::buf_text(&view.rows[j].path));
        &&& view.rows[j].is_dir
        &&& !view.rows[j].expanded
        &&& above.len() < target.len()
        &&& above == target.take(above.len() as int)
    }) by {
        let above = crate::path::parts_of(crate::path::buf_text(&view.rows[j].path));
        assert(target.take(above.len() as int) == target.subrange(0, above.len() as int));
        if above.len() == target.len() && above.is_prefix_of(target) {
            assert(above =~= target);
        }
    }
    if let Some(found) = view.next_above(text) {
        assert(shut(view.rows[found]));
        assert(i < found ==> !shut(view.rows[i]));
    } else {
        assert(!shut(view.rows[i]));
    }
}

/// There is nothing to open on the way to a path exactly where no row is such a
/// directory.
pub proof fn law_nothing_above(view: TreeView, text: Seq<u8>)
    ensures
        view.next_above(text) is None <==> forall|j: int|
            0 <= j < view.rows.len() ==> {
                let target = crate::path::parts_of(text);
                let above = crate::path::parts_of(
                    crate::path::buf_text(&(#[trigger] view.rows[j]).path),
                );
                ||| !view.rows[j].is_dir
                ||| view.rows[j].expanded
                ||| above.len() >= target.len()
                ||| above != target.take(above.len() as int)
            },
{
    let shut = crate::model::shut_above(text);
    let target = crate::path::parts_of(text);
    crate::model::lemma_first_row(view.rows, shut, 0);
    assert forall|j: int| 0 <= j < view.rows.len() implies (shut(#[trigger] view.rows[j]) <==> {
        let above = crate::path::parts_of(crate::path::buf_text(&view.rows[j].path));
        &&& view.rows[j].is_dir
        &&& !view.rows[j].expanded
        &&& above.len() < target.len()
        &&& above == target.take(above.len() as int)
    }) by {
        let above = crate::path::parts_of(crate::path::buf_text(&view.rows[j].path));
        assert(target.take(above.len() as int) == target.subrange(0, above.len() as int));
        if above.len() == target.len() && above.is_prefix_of(target) {
            assert(above =~= target);
        }
    }
    if let Some(found) = view.next_above(text) {
        assert(shut(view.rows[found]));
    }
}

} // verus!
