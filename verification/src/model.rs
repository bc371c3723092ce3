//! The tree's data model: which rows exist, in what order, at what depth, and
//! which of them the cursor is on.
//!
//! Rows are kept **flattened in display order** rather than as a nested tree.
//! Expanding splices a directory's children in behind their parent; collapsing
//! removes the run of deeper rows that follows it. Rendering and cursor
//! movement then need no traversal at all: they index straight into the list.

use std::borrow::Cow;
use std::path::{Path, PathBuf};
use vstd::prelude::*;

use crate::path::{same_path, shown_name, starts_with};

verus! {

/// One visible row.
#[derive(Debug, PartialEq, Eq)]
pub struct Entry {
    pub path: PathBuf,
    pub is_dir: bool,
    /// Nesting level; the root's children are at 0.
    pub depth: usize,
    /// Always false for files.
    pub expanded: bool,
}

impl Clone for Entry {
    fn clone(&self) -> (copy: Self)
        ensures
            copy == *self,
    {
        Entry {
            path: self.path.clone(),
            is_dir: self.is_dir,
            depth: self.depth,
            expanded: self.expanded,
        }
    }
}

impl Entry {
    pub(crate) fn new(path: PathBuf, is_dir: bool, depth: usize) -> (entry: Self)
        ensures
            entry == (Entry { path, is_dir, depth, expanded: false }),
    {
        Entry { path, is_dir, depth, expanded: false }
    }

    /// The text shown for this row, without indentation.
    pub fn name(&self) -> (name: Cow<'_, str>)
        ensures
            name@ == crate::path::shown_text(crate::path::buf_text(&self.path)),
    {
        shown_name(self.path.as_path())
    }
}

/// The visible rows of a directory, and the cursor among them.
#[derive(Debug)]
pub struct Tree {
    root: PathBuf,
    entries: Vec<Entry>,
    selected: usize,
}

/// What a tree is, apart from how it is stored.
#[verifier::ext_equal]
pub struct TreeView {
    pub root: PathBuf,
    pub rows: Seq<Entry>,
    pub selected: int,
}

/// The rows of `children`, all shut, at `depth`.
pub open spec fn child_rows(children: Seq<(PathBuf, bool)>, depth: int) -> Seq<Entry> {
    Seq::new(
        children.len(),
        |k: int|
            Entry {
                path: children[k].0,
                is_dir: children[k].1,
                depth: depth as usize,
                expanded: false,
            },
    )
}

/// The row `i` is at most one level below the row above it, and below it only
/// where that row is an open directory.
pub open spec fn follows(rows: Seq<Entry>, i: int) -> bool {
    rows[i].depth <= rows[i - 1].depth + (if rows[i - 1].expanded {
        1int
    } else {
        0int
    })
}

/// The first row at or after `from` that is no deeper than `depth`, or the end
/// of the list.
pub open spec fn run_end(rows: Seq<Entry>, from: int, depth: int) -> int
    decreases rows.len() - from,
{
    if from >= rows.len() {
        rows.len() as int
    } else if rows[from].depth <= depth {
        from
    } else {
        run_end(rows, from + 1, depth)
    }
}

/// The first row at or after `from` that satisfies `wanted`.
pub open spec fn first_row(rows: Seq<Entry>, wanted: spec_fn(Entry) -> bool, from: int) -> Option<
    int,
>
    decreases rows.len() - from,
{
    if from >= rows.len() {
        None
    } else if wanted(rows[from]) {
        Some(from)
    } else {
        first_row(rows, wanted, from + 1)
    }
}

/// The last row before `before` that is shallower than `depth`.
pub open spec fn last_shallower(rows: Seq<Entry>, before: int, depth: int) -> Option<int>
    decreases before,
{
    if before <= 0 {
        None
    } else if rows[before - 1].depth < depth {
        Some(before - 1)
    } else {
        last_shallower(rows, before - 1, depth)
    }
}

/// The row at `entry` holds the path with this text.
pub open spec fn holds_path(text: Seq<u8>) -> spec_fn(Entry) -> bool {
    |entry: Entry| crate::path::same_parts(crate::path::buf_text(&entry.path), text)
}

/// The row at `entry` is a shut directory that the path with this text lies
/// below.
pub open spec fn shut_above(text: Seq<u8>) -> spec_fn(Entry) -> bool {
    |entry: Entry|
        {
            &&& entry.is_dir
            &&& !entry.expanded
            &&& crate::path::parts_of(crate::path::buf_text(&entry.path)).is_prefix_of(crate::path::parts_of(text))
            &&& !crate::path::same_parts(crate::path::buf_text(&entry.path), text)
        }
}

/// `wanted`, held inside `low..high`.
pub open spec fn clamped(wanted: int, low: int, high: int) -> int {
    if wanted < low {
        low
    } else if wanted > high {
        high
    } else {
        wanted
    }
}

impl TreeView {
    /// The rows are a tree flattened in display order, and the cursor is on one
    /// of them.
    pub open spec fn wf(self) -> bool {
        &&& self.rows.len() > 0 ==> self.rows[0].depth == 0
        &&& forall|i: int|
            0 <= i < self.rows.len() && (#[trigger] self.rows[i]).expanded ==> self.rows[i].is_dir
        &&& forall|i: int| 0 < i < self.rows.len() ==> #[trigger] follows(self.rows, i)
        &&& 0 <= self.selected
        &&& self.rows.len() == 0 ==> self.selected == 0
        &&& self.rows.len() > 0 ==> self.selected < self.rows.len()
    }

    /// The row behind the last row nested under row `i`.
    pub open spec fn subtree_end(self, i: int) -> int {
        run_end(self.rows, i + 1, self.rows[i].depth as int)
    }

    /// A directory at `i` that is shut.
    pub open spec fn can_expand(self, i: int) -> bool {
        0 <= i < self.rows.len() && self.rows[i].is_dir && !self.rows[i].expanded
    }

    /// A directory at `i` that is open.
    pub open spec fn can_collapse(self, i: int) -> bool {
        0 <= i < self.rows.len() && self.rows[i].expanded
    }

    /// The tree with `children` shown behind the directory at `i`.
    pub open spec fn expand(self, i: int, children: Seq<(PathBuf, bool)>) -> TreeView {
        if self.can_expand(i) {
            TreeView {
                rows: self.rows.take(i).push(Entry { expanded: true, ..self.rows[i] })
                    + child_rows(children, self.rows[i].depth + 1) + self.rows.skip(i + 1),
                selected: if self.selected > i {
                    self.selected + children.len()
                } else {
                    self.selected
                },
                ..self
            }
        } else {
            self
        }
    }

    /// The tree without the rows nested under the directory at `i`.
    pub open spec fn collapse(self, i: int) -> TreeView {
        if self.can_collapse(i) {
            let end = self.subtree_end(i);
            TreeView {
                rows: self.rows.take(i).push(Entry { expanded: false, ..self.rows[i] })
                    + self.rows.skip(end),
                selected: if self.selected <= i {
                    self.selected
                } else if self.selected < end {
                    i
                } else {
                    self.selected - (end - (i + 1))
                },
                ..self
            }
        } else {
            self
        }
    }

    /// The tree with the cursor on row `i`, where there is one.
    pub open spec fn select(self, i: int) -> TreeView {
        if 0 <= i < self.rows.len() {
            TreeView { selected: i, ..self }
        } else {
            self
        }
    }

    /// The tree with the cursor `delta` rows on, stopping at the ends.
    pub open spec fn select_by(self, delta: int) -> TreeView {
        if self.rows.len() == 0 {
            self
        } else {
            TreeView { selected: clamped(self.selected + delta, 0, self.rows.len() - 1), ..self }
        }
    }

    /// The tree with the cursor one row down, wrapping at the bottom.
    pub open spec fn select_next(self) -> TreeView {
        if self.rows.len() == 0 {
            self
        } else {
            TreeView {
                selected: if self.selected + 1 == self.rows.len() {
                    0
                } else {
                    self.selected + 1
                },
                ..self
            }
        }
    }

    /// The tree with the cursor one row up, wrapping at the top.
    pub open spec fn select_prev(self) -> TreeView {
        if self.rows.len() == 0 {
            self
        } else {
            TreeView {
                selected: if self.selected == 0 {
                    self.rows.len() - 1
                } else {
                    self.selected - 1
                },
                ..self
            }
        }
    }

    /// The tree over a fresh listing of the root, everything shut.
    pub open spec fn reset(self, children: Seq<(PathBuf, bool)>) -> TreeView {
        TreeView {
            rows: child_rows(children, 0),
            selected: if children.len() == 0 {
                0
            } else {
                clamped(self.selected, 0, children.len() - 1)
            },
            ..self
        }
    }

    /// The row that holds a path, if it is visible.
    pub open spec fn position(self, text: Seq<u8>) -> Option<int> {
        first_row(self.rows, holds_path(text), 0)
    }

    /// The directory that the row at `i` lives in, if that has a row.
    pub open spec fn parent_of(self, i: int) -> Option<int> {
        if 0 <= i < self.rows.len() {
            last_shallower(self.rows, i, self.rows[i].depth as int)
        } else {
            None
        }
    }

    /// The shut directory to open next on the way to a path.
    pub open spec fn next_above(self, text: Seq<u8>) -> Option<int> {
        first_row(self.rows, shut_above(text), 0)
    }

    /// The tree with the cursor on a path, where that is visible.
    pub open spec fn select_path(self, text: Seq<u8>) -> TreeView {
        match self.position(text) {
            Some(i) => self.select(i),
            None => self,
        }
    }
}

impl View for Tree {
    type V = TreeView;

    closed spec fn view(&self) -> TreeView {
        TreeView { root: self.root, rows: self.entries@, selected: self.selected as int }
    }
}

pub proof fn lemma_run_end(rows: Seq<Entry>, from: int, depth: int)
    requires
        0 <= from <= rows.len(),
    ensures
        from <= run_end(rows, from, depth) <= rows.len(),
        forall|j: int| from <= j < run_end(rows, from, depth) ==> (#[trigger] rows[j]).depth > depth,
        run_end(rows, from, depth) < rows.len() ==> rows[run_end(rows, from, depth)].depth <= depth,
    decreases rows.len() - from,
{
    if from < rows.len() && rows[from].depth > depth {
        lemma_run_end(rows, from + 1, depth);
    }
}

pub proof fn lemma_first_row(rows: Seq<Entry>, wanted: spec_fn(Entry) -> bool, from: int)
    requires
        0 <= from,
    ensures
        match first_row(rows, wanted, from) {
            Some(i) => {
                &&& from <= i < rows.len()
                &&& wanted(rows[i])
                &&& forall|j: int| from <= j < i ==> !wanted(#[trigger] rows[j])
            },
            None => forall|j: int| from <= j < rows.len() ==> !wanted(#[trigger] rows[j]),
        },
    decreases rows.len() - from,
{
    if from < rows.len() && !wanted(rows[from]) {
        lemma_first_row(rows, wanted, from + 1);
    }
}

pub proof fn lemma_last_shallower(rows: Seq<Entry>, before: int, depth: int)
    requires
        before <= rows.len(),
    ensures
        match last_shallower(rows, before, depth) {
            Some(i) => {
                &&& 0 <= i < before
                &&& rows[i].depth < depth
                &&& forall|j: int| i < j < before ==> (#[trigger] rows[j]).depth >= depth
            },
            None => forall|j: int| 0 <= j < before ==> (#[trigger] rows[j]).depth >= depth,
        },
    decreases before,
{
    if before > 0 && rows[before - 1].depth >= depth {
        lemma_last_shallower(rows, before - 1, depth);
    }
}

/// No row is deeper than its place in the list.
pub proof fn lemma_depth_bound(view: TreeView, i: int)
    requires
        view.wf(),
        0 <= i < view.rows.len(),
    ensures
        view.rows[i].depth <= i,
    decreases i,
{
    if i > 0 {
        lemma_depth_bound(view, i - 1);
        assert(follows(view.rows, i));
    }
}

/// Expanding keeps the rows in order and the cursor among them.
pub proof fn lemma_expand_wf(view: TreeView, i: int, children: Seq<(PathBuf, bool)>)
    requires
        view.wf(),
        view.rows.len() <= usize::MAX,
    ensures
        view.expand(i, children).wf(),
{
    if view.can_expand(i) {
        let after = view.expand(i, children);
        let k = children.len();
        lemma_depth_bound(view, i);
        assert forall|j: int| 0 < j < after.rows.len() implies #[trigger] follows(after.rows, j) by {
            if j <= i {
                assert(follows(view.rows, j));
            } else if j > i + k {
                assert(follows(view.rows, j - k));
            }
        }
    }
}

/// Collapsing keeps the rows in order and the cursor among them.
pub proof fn lemma_collapse_wf(view: TreeView, i: int)
    requires
        view.wf(),
    ensures
        view.collapse(i).wf(),
{
    if view.can_collapse(i) {
        let after = view.collapse(i);
        let end = view.subtree_end(i);
        lemma_run_end(view.rows, i + 1, view.rows[i].depth as int);
        assert forall|j: int| 0 < j < after.rows.len() implies #[trigger] follows(after.rows, j) by {
            if j <= i {
                assert(follows(view.rows, j));
            } else if j > i + 1 {
                assert(follows(view.rows, j - (i + 1) + end));
            }
        }
    }
}

/// The rows of a listing, all shut, at `depth`.
fn child_entries(children: Vec<(PathBuf, bool)>, depth: usize) -> (entries: Vec<Entry>)
    ensures
        entries@ == child_rows(children@, depth as int),
{
    let mut entries: Vec<Entry> = Vec::new();
    for child in rows: children
        invariant
            rows.seq() == children@,
            entries@ == child_rows(children@.take(rows.index() as int), depth as int),
    {
        let (path, is_dir) = child;
        entries.push(Entry::new(path, is_dir, depth));
    }
    entries
}

impl Tree {
    /// The rows are a tree flattened in display order, and the cursor is on one
    /// of them.
    pub open spec fn wf(&self) -> bool {
        self@.wf()
    }

    /// The rows of a tree can be counted.
    pub proof fn lemma_len(&self)
        ensures
            self@.rows.len() <= usize::MAX,
    {
        assert(self.entries@.len() == self.entries.len());
    }

    /// Builds a tree whose visible rows are `children`, the contents of `root`.
    pub fn new(root: PathBuf, children: Vec<(PathBuf, bool)>) -> (tree: Self)
        ensures
            tree.wf(),
            tree@ == (TreeView { root, rows: child_rows(children@, 0), selected: 0 }),
    {
        Tree { root, entries: child_entries(children, 0), selected: 0 }
    }

    pub fn root(&self) -> (root: &Path)
        ensures
            crate::path::path_text(root) == crate::path::buf_text(&self@.root),
    {
        self.root.as_path()
    }

    pub fn entries(&self) -> (entries: &[Entry])
        ensures
            entries@ == self@.rows,
    {
        self.entries.as_slice()
    }

    pub fn get(&self, index: usize) -> (entry: Option<&Entry>)
        ensures
            match entry {
                Some(entry) => index < self@.rows.len() && *entry == self@.rows[index as int],
                None => index >= self@.rows.len(),
            },
    {
        if index < self.entries.len() {
            Some(&self.entries[index])
        } else {
            None
        }
    }

    pub fn len(&self) -> (len: usize)
        ensures
            len == self@.rows.len(),
    {
        self.entries.len()
    }

    pub fn is_empty(&self) -> (empty: bool)
        ensures
            empty == (self@.rows.len() == 0),
    {
        self.entries.is_empty()
    }

    /// Splices `children` in behind the directory at `index`.
    ///
    /// A no-op for files and for directories that are already open, so callers
    /// can expand without checking first. The cursor stays on the row it was
    /// on. Reading the directory is the caller's job, which keeps the failure
    /// path out of the model.
    pub fn expand(&mut self, index: usize, children: Vec<(PathBuf, bool)>)
        requires
            old(self).wf(),
        ensures
            final(self).wf(),
            final(self)@ == old(self)@.expand(index as int, children@),
    {
        if index >= self.entries.len() || !self.entries[index].is_dir
            || self.entries[index].expanded {
            return ;
        }
        proof {
            lemma_depth_bound(self@, index as int);
            lemma_expand_wf(self@, index as int, children@);
        }
        let depth: usize = self.entries[index].depth + 1;
        let added: usize = children.len();
        let mut tail = self.entries.split_off(index + 1);
        let mut nested = child_entries(children, depth);
        self.entries[index].expanded = true;
        self.entries.append(&mut nested);
        self.entries.append(&mut tail);
        // The cursor stays within a list whose length is known to fit.
        let total: usize = self.entries.len();
        if self.selected > index {
            self.selected = self.selected + added;
        }
        assert(self@.rows =~= old(self)@.expand(index as int, children@).rows);
    }

    /// Removes the rows nested under the directory at `index`.
    ///
    /// The whole subtree goes, however deep, so the children of a directory
    /// collapsed while its own children were open come back collapsed. A cursor
    /// inside the subtree moves out to the directory; any other stays on the
    /// row it was on.
    pub fn collapse(&mut self, index: usize)
        requires
            old(self).wf(),
        ensures
            final(self).wf(),
            final(self)@ == old(self)@.collapse(index as int),
    {
        if index >= self.entries.len() || !self.entries[index].expanded {
            return ;
        }
        let depth: usize = self.entries[index].depth;
        let mut end: usize = index + 1;
        while end < self.entries.len() && self.entries[end].depth > depth
            invariant
                *self == *old(self),
                index < end <= self.entries.len(),
                self@.subtree_end(index as int) == run_end(self@.rows, end as int, depth as int),
            ensures
                end == self@.subtree_end(index as int),
            decreases self.entries.len() - end,
        {
            end = end + 1;
        }
        proof {
            lemma_collapse_wf(self@, index as int);
            lemma_run_end(self@.rows, index + 1, depth as int);
        }
        let mut tail = self.entries.split_off(end);
        self.entries.truncate(index + 1);
        self.entries[index].expanded = false;
        self.entries.append(&mut tail);
        if self.selected >= end {
            self.selected = self.selected - (end - (index + 1));
        } else if self.selected > index {
            self.selected = index;
        }
        assert(self@.rows =~= old(self)@.collapse(index as int).rows);
    }

    /// The index of the row holding `path`, if it is currently visible.
    pub fn position(&self, path: &Path) -> (index: Option<usize>)
        ensures
            match index {
                Some(index) => self@.position(crate::path::path_text(path)) == Some(index as int),
                None => self@.position(crate::path::path_text(path)) is None,
            },
    {
        let mut index: usize = 0;
        while index < self.entries.len()
            invariant
                index <= self.entries.len(),
                self@.position(crate::path::path_text(path)) == first_row(
                    self@.rows,
                    holds_path(crate::path::path_text(path)),
                    index as int,
                ),
            decreases self.entries.len() - index,
        {
            if same_path(self.entries[index].path.as_path(), path) {
                return Some(index);
            }
            index = index + 1;
        }
        None
    }

    /// The row the cursor is on; 0 in an empty tree.
    pub fn selected(&self) -> (index: usize)
        ensures
            index == self@.selected,
    {
        self.selected
    }

    /// The entry the cursor is on, unless the tree is empty.
    pub fn selected_entry(&self) -> (entry: Option<&Entry>)
        requires
            self.wf(),
        ensures
            match entry {
                Some(entry) => self@.rows.len() > 0 && *entry == self@.rows[self@.selected],
                None => self@.rows.len() == 0,
            },
    {
        self.get(self.selected)
    }

    /// Puts the cursor on the row at `index`. A no-op past the last row.
    pub fn select(&mut self, index: usize)
        requires
            old(self).wf(),
        ensures
            final(self).wf(),
            final(self)@ == old(self)@.select(index as int),
    {
        if index < self.entries.len() {
            self.selected = index;
        }
    }

    /// Moves the cursor down one row, from the last row to the first.
    pub fn select_next(&mut self)
        requires
            old(self).wf(),
        ensures
            final(self).wf(),
            final(self)@ == old(self)@.select_next(),
    {
        if self.entries.len() == 0 {
            return ;
        }
        if self.selected + 1 == self.entries.len() {
            self.selected = 0;
        } else {
            self.selected = self.selected + 1;
        }
    }

    /// Moves the cursor up one row, from the first row to the last.
    pub fn select_prev(&mut self)
        requires
            old(self).wf(),
        ensures
            final(self).wf(),
            final(self)@ == old(self)@.select_prev(),
    {
        if self.entries.len() == 0 {
            return ;
        }
        if self.selected == 0 {
            self.selected = self.entries.len() - 1;
        } else {
            self.selected = self.selected - 1;
        }
    }

    /// Puts the cursor on the first row.
    pub fn select_first(&mut self)
        requires
            old(self).wf(),
        ensures
            final(self).wf(),
            final(self)@ == old(self)@.select(0),
    {
        self.selected = 0;
    }

    /// Puts the cursor on the last row.
    pub fn select_last(&mut self)
        requires
            old(self).wf(),
        ensures
            final(self).wf(),
            final(self)@ == old(self)@.select(old(self)@.rows.len() - 1),
    {
        if self.entries.len() > 0 {
            self.selected = self.entries.len() - 1;
        }
    }

    /// Moves the cursor by `delta` rows, stopping at the ends.
    pub fn select_by(&mut self, delta: isize)
        requires
            old(self).wf(),
        ensures
            final(self).wf(),
            final(self)@ == old(self)@.select_by(delta as int),
    {
        if self.entries.len() == 0 {
            return ;
        }
        let last: usize = self.entries.len() - 1;
        let wanted: i128 = self.selected as i128 + delta as i128;
        self.selected =
        if wanted < 0 {
            0
        } else if wanted > last as i128 {
            last
        } else {
            wanted as usize
        };
    }

    /// Starts over from a fresh listing of the root. Everything is shut, and
    /// the cursor keeps its place in the list as far as there are rows.
    pub fn reset(&mut self, children: Vec<(PathBuf, bool)>)
        requires
            old(self).wf(),
        ensures
            final(self).wf(),
            final(self)@ == old(self)@.reset(children@),
    {
        self.entries = child_entries(children, 0);
        if self.entries.len() == 0 {
            self.selected = 0;
        } else if self.selected >= self.entries.len() {
            self.selected = self.entries.len() - 1;
        }
    }

    /// The row of the directory that holds the row at `index`. `None` for rows
    /// at the top, which live in the root.
    pub fn parent_of(&self, index: usize) -> (parent: Option<usize>)
        ensures
            match parent {
                Some(parent) => self@.parent_of(index as int) == Some(parent as int),
                None => self@.parent_of(index as int) is None,
            },
    {
        if index >= self.entries.len() {
            return None;
        }
        let depth: usize = self.entries[index].depth;
        let mut before: usize = index;
        while before > 0
            invariant
                before <= index < self.entries.len(),
                self@.parent_of(index as int) == last_shallower(
                    self@.rows,
                    before as int,
                    depth as int,
                ),
            decreases before,
        {
            if self.entries[before - 1].depth < depth {
                return Some(before - 1);
            }
            before = before - 1;
        }
        None
    }

    /// One step towards showing `path`.
    ///
    /// While a directory above `path` is shut, its row is returned, to be read
    /// and expanded before the next step. When none is, the cursor goes to the
    /// row of `path`, if it has one.
    pub fn reveal_path(&mut self, path: &Path) -> (shut: Option<usize>)
        requires
            old(self).wf(),
        ensures
            final(self).wf(),
            match shut {
                Some(shut) => {
                    &&& old(self)@.next_above(crate::path::path_text(path)) == Some(shut as int)
                    &&& final(self)@ == old(self)@
                },
                None => {
                    &&& old(self)@.next_above(crate::path::path_text(path)) is None
                    &&& final(self)@ == old(self)@.select_path(crate::path::path_text(path))
                },
            },
    {
        let mut index: usize = 0;
        while index < self.entries.len()
            invariant
                *self == *old(self),
                self.wf(),
                index <= self.entries.len(),
                self@.next_above(crate::path::path_text(path)) == first_row(
                    self@.rows,
                    shut_above(crate::path::path_text(path)),
                    index as int,
                ),
            decreases self.entries.len() - index,
        {
            let entry = &self.entries[index];
            if entry.is_dir && !entry.expanded && starts_with(path, entry.path.as_path())
                && !same_path(entry.path.as_path(), path) {
                return Some(index);
            }
            index = index + 1;
        }
        self.select_path(path);
        None
    }

    /// Puts the cursor on the row of `path`, if it is visible.
    pub fn select_path(&mut self, path: &Path)
        requires
            old(self).wf(),
        ensures
            final(self).wf(),
            final(self)@ == old(self)@.select_path(crate::path::path_text(path)),
    {
        match self.position(path) {
            Some(index) => self.select(index),
            None => {},
        }
    }
}

} // verus!
