use std::path::{Path, PathBuf};

use file_tree::listing::{read_dir, sort_key, Found};
use file_tree::path::{file_name, is_hidden};

fn found(path: &str, is_dir: bool) -> Found {
    Found { path: PathBuf::from(path), is_dir: Some(is_dir) }
}

fn names(list: &[(PathBuf, bool)]) -> Vec<String> {
    list.iter().map(|(path, _)| file_name(path)).collect()
}

#[test]
fn read_dir_puts_directories_first_then_sorts_by_name() {
    let list = read_dir(
        vec![
            found("/w/zebra", true),
            found("/w/Alpha", true),
            found("/w/b.rs", false),
            found("/w/A.rs", false),
        ],
        false,
    );

    assert_eq!(
        names(&list),
        ["Alpha", "zebra", "A.rs", "b.rs"],
        "directories first, and the sort ignores case"
    );
}

#[test]
fn read_dir_hides_dotfiles_unless_asked() {
    let entries = || vec![found("/w/.env", false), found("/w/visible.rs", false)];

    let shown = read_dir(entries(), false);
    assert_eq!(shown.len(), 1);

    let all = read_dir(entries(), true);
    assert_eq!(all.len(), 2);
}

#[test]
fn hiding_removes_only_what_is_hidden() {
    let entries = || {
        vec![
            found("/w/b", false),
            found("/w/.z", true),
            found("/w/A", false),
            found("/w/.a", false),
            found("/w/c", true),
        ]
    };
    let mut all = read_dir(entries(), true);
    assert_eq!(names(&all), [".z", "c", ".a", "A", "b"]);

    all.retain(|(path, _)| !is_hidden(path));
    assert_eq!(read_dir(entries(), false), all);
}

#[test]
fn a_name_comes_before_the_names_it_begins() {
    let list = read_dir(
        vec![found("ab", false), found("a", false), found("aB c", false), found("", false)],
        true,
    );
    assert_eq!(names(&list), ["", "a", "ab", "aB c"]);
}

#[test]
fn entries_of_unknown_type_are_skipped() {
    let list = read_dir(
        vec![Found { path: PathBuf::from("/w/broken"), is_dir: None }, found("/w/a", false)],
        true,
    );

    assert_eq!(names(&list), ["a"]);
}

#[test]
fn entries_of_the_same_rank_keep_their_order() {
    let list = read_dir(
        vec![
            found("/w/README", false),
            found("/w/readme", false),
            found("/w/ReadMe", false),
            found("/w/a", false),
        ],
        true,
    );

    assert_eq!(names(&list), ["a", "README", "readme", "ReadMe"]);
}

#[test]
fn a_listing_keeps_paths_and_types() {
    let list = read_dir(vec![found("/w/b", false), found("/w/a", false), found("/w/z", true)], false);

    assert_eq!(
        list,
        [
            (PathBuf::from("/w/z"), true),
            (PathBuf::from("/w/a"), false),
            (PathBuf::from("/w/b"), false),
        ]
    );
}

#[test]
fn nothing_found_is_an_empty_listing() {
    assert!(read_dir(vec![], true).is_empty());
}

#[test]
fn names_are_ordered_by_code_point_in_lower_case() {
    let list = read_dir(
        vec![
            found("Z", false),
            found("Éa", false),
            found("_", false),
            found("a10", false),
            found("a2", false),
            found("a", false),
        ],
        false,
    );

    assert_eq!(names(&list), ["_", "a", "a10", "a2", "Z", "Éa"]);
}

#[test]
fn the_sort_key_is_the_final_name_in_lower_case() {
    assert_eq!(sort_key(Path::new("/Work/READ Me.TXT")), "read me.txt");
    assert_eq!(sort_key(Path::new("ÀÉ")), "àé");
    assert_eq!(sort_key(Path::new("A/..")), "a/..");
}

#[test]
fn a_dotfile_starts_with_a_dot() {
    assert!(is_hidden(Path::new("/w/.git")));
    assert!(is_hidden(Path::new(".é")));
    assert!(!is_hidden(Path::new("/w/.git/config")));
    assert!(!is_hidden(Path::new("/w/a.rs")));
    assert!(!is_hidden(Path::new("/w/..")));
    assert!(!is_hidden(Path::new("/")));
    assert!(!is_hidden(Path::new("")));
}

#[test]
fn the_file_name_is_the_final_component() {
    assert_eq!(file_name(Path::new("/w/src/main.rs")), "main.rs");
    assert_eq!(file_name(Path::new("/w/src/")), "src");
    assert_eq!(file_name(Path::new("/")), "/");
    assert_eq!(file_name(Path::new("../..")), "../..");
}
