use std::path::{Path, PathBuf};

use file_tree::model::{Entry, Tree};

fn dir(name: &str) -> (PathBuf, bool) {
    (PathBuf::from(name), true)
}

fn file(name: &str) -> (PathBuf, bool) {
    (PathBuf::from(name), false)
}

fn shape(tree: &Tree) -> Vec<(String, usize)> {
    tree.entries()
        .iter()
        .map(|entry| (entry.name().into_owned(), entry.depth))
        .collect()
}

/// `src` with `ui` and `main.rs` in it, `ui` with `menu.rs` in it, and `a.rs`.
fn nested() -> Tree {
    let mut tree = Tree::new(PathBuf::from("/root"), vec![dir("src"), file("a.rs")]);
    tree.expand(0, vec![dir("ui"), file("main.rs")]);
    tree.expand(1, vec![file("menu.rs")]);
    tree
}

#[test]
fn new_lists_children_at_depth_zero() {
    let tree = Tree::new(PathBuf::from("/root"), vec![dir("src"), file("a.rs")]);

    assert_eq!(
        shape(&tree),
        [("src".into(), 0), ("a.rs".into(), 0)],
        "root children sit at depth 0 in the order given"
    );
    assert_eq!(tree.root(), Path::new("/root"));
}

#[test]
fn expand_splices_children_behind_their_parent() {
    let mut tree = Tree::new(PathBuf::from("/root"), vec![dir("src"), file("a.rs")]);
    tree.expand(0, vec![file("main.rs")]);

    assert_eq!(
        shape(&tree),
        [("src".into(), 0), ("main.rs".into(), 1), ("a.rs".into(), 0)],
        "children land between the parent and its next sibling"
    );
    assert!(tree.get(0).unwrap().expanded);
}

#[test]
fn collapse_removes_the_whole_subtree() {
    let mut tree = Tree::new(PathBuf::from("/root"), vec![dir("src"), file("a.rs")]);
    tree.expand(0, vec![dir("ui"), file("main.rs")]);
    tree.expand(1, vec![file("menu.rs")]);
    assert_eq!(tree.len(), 5);

    tree.collapse(0);

    assert_eq!(
        shape(&tree),
        [("src".into(), 0), ("a.rs".into(), 0)],
        "nested rows go too, not just the immediate children"
    );
    assert!(!tree.get(0).unwrap().expanded);
}

#[test]
fn collapsing_forgets_that_children_were_open() {
    let mut tree = Tree::new(PathBuf::from("/root"), vec![dir("src")]);
    tree.expand(0, vec![dir("ui")]);
    tree.expand(1, vec![file("menu.rs")]);

    tree.collapse(0);
    tree.expand(0, vec![dir("ui")]);

    assert_eq!(
        shape(&tree),
        [("src".into(), 0), ("ui".into(), 1)],
        "re-expanding shows `ui` shut, not restored to its old state"
    );
}

#[test]
fn expanding_a_file_or_an_open_directory_does_nothing() {
    let mut tree = Tree::new(PathBuf::from("/root"), vec![dir("src"), file("a.rs")]);

    tree.expand(1, vec![file("nope.rs")]);
    assert_eq!(tree.len(), 2, "files have no children to splice in");

    tree.expand(0, vec![file("main.rs")]);
    tree.expand(0, vec![file("again.rs")]);
    assert_eq!(tree.len(), 3, "the second expand of `src` is ignored");
}

#[test]
fn collapsing_a_leaf_or_a_shut_directory_does_nothing() {
    let mut tree = Tree::new(PathBuf::from("/root"), vec![dir("src"), file("a.rs")]);

    tree.collapse(0);
    tree.collapse(1);
    tree.collapse(99);

    assert_eq!(shape(&tree), [("src".into(), 0), ("a.rs".into(), 0)]);
}

#[test]
fn collapse_stops_at_the_next_sibling() {
    let mut tree = Tree::new(PathBuf::from("/root"), vec![dir("a"), dir("b")]);
    tree.expand(1, vec![file("b1.rs")]);
    tree.expand(0, vec![file("a1.rs")]);

    tree.collapse(0);

    assert_eq!(
        shape(&tree),
        [("a".into(), 0), ("b".into(), 0), ("b1.rs".into(), 1)],
        "`b`'s open children survive `a` collapsing"
    );
}

#[test]
fn position_finds_visible_rows_only() {
    let mut tree = Tree::new(PathBuf::from("/root"), vec![dir("src")]);
    tree.expand(0, vec![file("main.rs")]);

    assert_eq!(tree.position(Path::new("main.rs")), Some(1));

    tree.collapse(0);
    assert_eq!(tree.position(Path::new("main.rs")), None);
}

#[test]
fn position_compares_components() {
    let tree = Tree::new(PathBuf::from("/root"), vec![file("/root/a.rs")]);

    assert_eq!(tree.position(Path::new("/root//./a.rs")), Some(0));
    assert_eq!(tree.position(Path::new("/root/A.rs")), None);
}

#[test]
fn collapse_undoes_expand() {
    let mut tree = Tree::new(PathBuf::from("/root"), vec![dir("src"), file("a.rs")]);
    tree.select(1);
    let before: Vec<Entry> = tree.entries().to_vec();

    tree.expand(0, vec![dir("ui"), file("main.rs")]);
    assert_ne!(tree.entries(), &before[..]);
    tree.collapse(0);

    assert_eq!(tree.entries(), &before[..]);
    assert_eq!(tree.selected(), 1);
}

#[test]
fn collapsing_the_outer_directory_absorbs_the_inner_one() {
    let mut inner_first = nested();
    inner_first.collapse(1);
    inner_first.collapse(0);
    let mut outer_only = nested();
    outer_only.collapse(0);

    assert_eq!(inner_first.entries(), outer_only.entries());
}

#[test]
fn expanding_with_nothing_still_opens() {
    let mut tree = Tree::new(PathBuf::from("/root"), vec![dir("src")]);
    tree.expand(0, vec![]);

    assert_eq!(tree.len(), 1);
    assert!(tree.get(0).unwrap().expanded);
}

#[test]
fn the_cursor_stays_on_its_row_when_rows_come_and_go_above_it() {
    let mut tree = Tree::new(PathBuf::from("/root"), vec![dir("src"), file("a.rs")]);
    tree.select(1);
    tree.expand(0, vec![file("x"), file("y")]);
    assert_eq!(tree.selected(), 3);
    assert_eq!(tree.selected_entry().unwrap().path, Path::new("a.rs"));

    tree.collapse(0);
    assert_eq!(tree.selected(), 1);
    assert_eq!(tree.selected_entry().unwrap().path, Path::new("a.rs"));
}

#[test]
fn a_cursor_inside_a_collapsed_directory_moves_out_to_it() {
    let mut tree = nested();
    tree.select(2);
    assert_eq!(tree.selected_entry().unwrap().path, Path::new("menu.rs"));

    tree.collapse(0);
    assert_eq!(tree.selected(), 0);
    assert_eq!(tree.selected_entry().unwrap().path, Path::new("src"));
}

#[test]
fn next_and_previous_wrap() {
    let mut tree = Tree::new(PathBuf::from("/root"), vec![file("a"), file("b"), file("c")]);

    tree.select_prev();
    assert_eq!(tree.selected(), 2);
    tree.select_next();
    assert_eq!(tree.selected(), 0);
    tree.select_next();
    assert_eq!(tree.selected(), 1);
    tree.select_prev();
    assert_eq!(tree.selected(), 0);
}

#[test]
fn jumps_stop_at_the_ends() {
    let mut tree = Tree::new(PathBuf::from("/root"), vec![file("a"), file("b"), file("c")]);

    tree.select_by(2);
    assert_eq!(tree.selected(), 2);
    tree.select_by(isize::MAX);
    assert_eq!(tree.selected(), 2);
    tree.select_by(-1);
    assert_eq!(tree.selected(), 1);
    tree.select_by(isize::MIN);
    assert_eq!(tree.selected(), 0);
    tree.select_last();
    assert_eq!(tree.selected(), 2);
    tree.select_first();
    assert_eq!(tree.selected(), 0);
    tree.select(3);
    assert_eq!(tree.selected(), 0);
}

#[test]
fn an_empty_tree_has_nothing_to_select() {
    let mut tree = Tree::new(PathBuf::from("/root"), vec![]);
    assert!(tree.is_empty());

    tree.select_next();
    tree.select_prev();
    tree.select_last();
    tree.select_by(5);

    assert_eq!(tree.selected(), 0);
    assert!(tree.selected_entry().is_none());
    assert_eq!(tree.parent_of(0), None);
}

#[test]
fn the_parent_is_the_directory_one_level_up() {
    let tree = nested();

    // src, ui, menu.rs, main.rs, a.rs
    assert_eq!(tree.parent_of(0), None);
    assert_eq!(tree.parent_of(1), Some(0));
    assert_eq!(tree.parent_of(2), Some(1));
    assert_eq!(tree.parent_of(3), Some(0));
    assert_eq!(tree.parent_of(4), None);
    assert_eq!(tree.parent_of(99), None);
}

#[test]
fn reset_shuts_everything_and_keeps_the_place() {
    let mut tree = nested();
    tree.select(4);
    tree.reset(vec![dir("src"), file("a.rs"), file("b.rs")]);

    assert_eq!(shape(&tree), [("src".into(), 0), ("a.rs".into(), 0), ("b.rs".into(), 0)]);
    assert!(tree.entries().iter().all(|entry| !entry.expanded));
    assert_eq!(tree.selected(), 2);
    assert_eq!(tree.root(), Path::new("/root"));

    tree.reset(vec![]);
    assert_eq!(tree.selected(), 0);
}

#[test]
fn revealing_opens_one_directory_after_another() {
    let mut tree = Tree::new(
        PathBuf::from("/root"),
        vec![dir("/root/other"), dir("/root/src")],
    );
    let path = Path::new("/root/src/ui/menu.rs");

    assert_eq!(tree.reveal_path(path), Some(1));
    tree.expand(1, vec![dir("/root/src/u"), dir("/root/src/ui")]);
    assert_eq!(tree.reveal_path(path), Some(3), "`u` is not above `ui/menu.rs`");
    tree.expand(3, vec![file("/root/src/ui/menu.rs")]);
    assert_eq!(tree.reveal_path(path), None);
    assert_eq!(tree.selected(), 4);
}

#[test]
fn revealing_a_path_from_elsewhere_leaves_the_tree_shut() {
    let mut tree = Tree::new(PathBuf::from("/root"), vec![dir("/root/src"), file("/root/a")]);
    tree.select(1);

    assert_eq!(tree.reveal_path(Path::new("/tmp/a.rs")), None);
    assert_eq!(tree.len(), 2);
    assert_eq!(tree.selected(), 1);
}

#[test]
fn the_cursor_goes_to_a_visible_path_only() {
    let mut tree = nested();

    tree.select_path(Path::new("main.rs"));
    assert_eq!(tree.selected(), 3);
    tree.select_path(Path::new("gone.rs"));
    assert_eq!(tree.selected(), 3);
}

#[test]
fn a_row_without_a_final_name_shows_the_whole_path() {
    let tree = Tree::new(PathBuf::from("/"), vec![dir("/"), dir("a/.."), file("/x/y.rs")]);

    assert_eq!(tree.get(0).unwrap().name(), "/");
    assert_eq!(tree.get(1).unwrap().name(), "a/..");
    assert_eq!(tree.get(2).unwrap().name(), "y.rs");
}

#[test]
fn a_cloned_row_is_the_same_row() {
    let tree = nested();
    let row = tree.get(1).unwrap();

    assert_eq!(&row.clone(), row);
}
