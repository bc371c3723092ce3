use std::path::{Path, PathBuf};

use file_tree::component::{open, FileTree, Line, Outcome, Pending, PromptEvent, RowStyle};
use file_tree::component::{ICON_WIDTH, INDENT, MARKER_WIDTH};
use file_tree::event::{Event, KeyCode, KeyEvent, Modifiers};
use file_tree::layout::{Cursor, Rect};
use file_tree::listing::Found;
use file_tree::preview::{Cached, Look};
use file_tree::task::{failure, taken, Reply, Step, Task};

type Files = FileTree<String>;

const SCREEN: Rect = Rect { x: 1, y: 1, width: 40, height: 10 };

fn dir(path: &str) -> Found {
    Found { path: PathBuf::from(path), is_dir: Some(true) }
}

fn file(path: &str) -> Found {
    Found { path: PathBuf::from(path), is_dir: Some(false) }
}

/// `/w` with `src` and `a.rs` in it, everything shut.
fn small() -> Files {
    FileTree::new(PathBuf::from("/w"), vec![file("/w/a.rs"), dir("/w/src"), file("/w/.env")], true)
}

/// `/w/many` with ten files in it.
fn many() -> Files {
    let names = ["0", "1", "2", "3", "4", "5", "6", "7", "8", "9"];
    let found = names.iter().map(|name| file(&format!("/w/many/{name}"))).collect();
    FileTree::new(PathBuf::from("/w/many"), found, true)
}

fn named(code: KeyCode) -> Event {
    Event::Key(KeyEvent { code, modifiers: Modifiers::Plain })
}

fn plain(character: char) -> Event {
    named(KeyCode::Char(character))
}

fn shift(character: char) -> Event {
    Event::Key(KeyEvent { code: KeyCode::Char(character), modifiers: Modifiers::Shift })
}

fn control(character: char) -> Event {
    Event::Key(KeyEvent { code: KeyCode::Char(character), modifiers: Modifiers::Control })
}

fn press(files: &mut Files, event: Event) -> Outcome {
    files.handle_event(&event, "")
}

fn submit(files: &mut Files, line: &str) -> Outcome {
    files.handle_event(&named(KeyCode::Enter), line)
}

fn selected(files: &Files) -> &Path {
    &files.tree().selected_entry().unwrap().path
}

fn rows(files: &Files) -> Vec<(&Path, usize, bool)> {
    files
        .tree()
        .entries()
        .iter()
        .map(|entry| (entry.path.as_path(), entry.depth, entry.expanded))
        .collect()
}

fn task(outcome: Outcome) -> Task {
    match outcome {
        Outcome::Run(task) => task,
        other => panic!("{other:?}"),
    }
}

fn next(step: Step) -> Task {
    match step {
        Step::Next(task) => task,
        other => panic!("{other:?}"),
    }
}

fn reported(step: Step) -> String {
    match step {
        Step::Report(message) => message,
        other => panic!("{other:?}"),
    }
}

/// Opens the directory under the cursor onto `found`.
fn expand(files: &mut Files, found: Vec<Found>) {
    let expansion = task(press(files, plain('l')));
    assert!(matches!(expansion, Task::Expand(_)));
    assert!(matches!(files.advance(expansion, Reply::Listing(found)), Step::Finished));
}

/// `src` open, with `ui` and `main.rs` in it.
fn opened() -> Files {
    let mut files = small();
    expand(&mut files, vec![file("/w/src/main.rs"), dir("/w/src/ui")]);
    files
}

#[test]
fn the_tree_opens_on_the_root_listing() {
    let files = small();
    assert_eq!(
        rows(&files),
        [(Path::new("/w/src"), 0, false), (Path::new("/w/a.rs"), 0, false)]
    );
    assert_eq!(files.tree().root(), Path::new("/w"));
    assert_eq!(files.tree().selected(), 0);
    assert!(files.pending().is_none());
    assert!(files.confirm().is_none());

    let all: Files = FileTree::new(PathBuf::from("/w"), vec![file("/w/.env")], false);
    assert_eq!(all.tree().len(), 1);
}

#[test]
fn hidden_files_follow_one_rule() {
    let mut files = small();
    expand(&mut files, vec![file("/w/src/.keep"), file("/w/src/b.rs")]);
    assert_eq!(files.tree().len(), 3);

    let mut all: Files = FileTree::new(PathBuf::from("/w"), vec![dir("/w/src")], false);
    expand(&mut all, vec![file("/w/src/.keep"), file("/w/src/b.rs")]);
    assert_eq!(all.tree().len(), 3);
}

#[test]
fn the_cursor_moves_and_wraps() {
    let mut files = small();
    for (event, expected) in [
        (plain('k'), 1),
        (plain('j'), 0),
        (named(KeyCode::Down), 1),
        (control('n'), 0),
        (named(KeyCode::Up), 1),
        (control('p'), 0),
        (shift('G'), 1),
        (plain('g'), 0),
    ] {
        assert!(matches!(press(&mut files, event), Outcome::Consumed));
        assert_eq!(files.tree().selected(), expected, "{event:?}");
    }
}

#[test]
fn a_page_is_half_the_rows_that_fit() {
    let mut files = many();
    press(&mut files, control('d'));
    assert_eq!(files.tree().selected(), 1, "nothing drawn yet: one row");

    files.render_list(Rect { height: 7, ..SCREEN });
    press(&mut files, named(KeyCode::PageDown));
    assert_eq!(files.tree().selected(), 4);
    press(&mut files, control('d'));
    press(&mut files, control('d'));
    press(&mut files, control('d'));
    assert_eq!(files.tree().selected(), 9, "it stops at the end");
    press(&mut files, control('u'));
    assert_eq!(files.tree().selected(), 6);
    press(&mut files, named(KeyCode::PageUp));
    press(&mut files, named(KeyCode::PageUp));
    press(&mut files, named(KeyCode::PageUp));
    assert_eq!(files.tree().selected(), 0);
}

#[test]
fn escape_closes() {
    assert!(matches!(press(&mut small(), named(KeyCode::Esc)), Outcome::Close));
    assert!(matches!(press(&mut small(), control('c')), Outcome::Close));
}

#[test]
fn the_tree_is_modal() {
    let mut files = small();
    assert!(matches!(press(&mut files, plain('x')), Outcome::Consumed));
    assert!(matches!(press(&mut files, control('s')), Outcome::Consumed));
    assert!(matches!(press(&mut files, Event::Other), Outcome::Ignored));
    assert_eq!(files.tree().selected(), 0);
}

#[test]
fn activating_a_file_opens_it() {
    let mut files = small();
    press(&mut files, plain('j'));
    match press(&mut files, named(KeyCode::Enter)) {
        Outcome::Open(path) => assert_eq!(path, Path::new("/w/a.rs")),
        other => panic!("{other:?}"),
    }
}

#[test]
fn activating_a_directory_toggles_it() {
    let mut files = small();
    match task(press(&mut files, plain('o'))) {
        Task::Expand(expansion) => {
            assert_eq!(expansion.index, 0);
            assert_eq!(expansion.path, Path::new("/w/src"));
        }
        other => panic!("{other:?}"),
    }

    let mut files = opened();
    assert_eq!(
        rows(&files),
        [
            (Path::new("/w/src"), 0, true),
            (Path::new("/w/src/ui"), 1, false),
            (Path::new("/w/src/main.rs"), 1, false),
            (Path::new("/w/a.rs"), 0, false),
        ]
    );
    assert!(matches!(press(&mut files, named(KeyCode::Right)), Outcome::Consumed));
    assert_eq!(rows(&files), rows(&small()));
}

#[test]
fn a_directory_that_cannot_be_read_stays_shut() {
    let mut files = small();
    let expansion = task(press(&mut files, plain('l')));
    let step = files.advance(expansion, Reply::Failed("denied".to_string()));

    assert_eq!(reported(step), "Failed to read /w/src: denied");
    assert_eq!(rows(&files), rows(&small()));
}

#[test]
fn stepping_out_walks_up_the_tree() {
    let mut files = opened();
    press(&mut files, plain('j'));
    expand(&mut files, vec![file("/w/src/ui/menu.rs")]);
    press(&mut files, plain('j'));
    assert_eq!(selected(&files), Path::new("/w/src/ui/menu.rs"));

    press(&mut files, plain('h'));
    assert_eq!(selected(&files), Path::new("/w/src/ui"));
    press(&mut files, named(KeyCode::Left));
    assert_eq!(files.tree().len(), 4, "`ui` is shut");
    press(&mut files, plain('h'));
    assert_eq!(selected(&files), Path::new("/w/src"));
    press(&mut files, plain('h'));
    assert_eq!(files.tree().len(), 2, "`src` is shut");
    press(&mut files, plain('h'));
    assert_eq!(selected(&files), Path::new("/w/src"), "the root has no row");
}

#[test]
fn creating_asks_for_a_name() {
    let mut files = small();
    match press(&mut files, plain('a')) {
        Outcome::Ask { label, line } => assert_eq!((label, line.as_str()), ("create file: ", "")),
        other => panic!("{other:?}"),
    }
    assert!(matches!(files.pending(), Some(Pending::CreateFile)));

    let mut files = small();
    match press(&mut files, shift('A')) {
        Outcome::Ask { label, line } => {
            assert_eq!((label, line.as_str()), ("create directory: ", ""))
        }
        other => panic!("{other:?}"),
    }
    assert!(matches!(files.pending(), Some(Pending::CreateDirectory)));
}

#[test]
fn a_file_is_created_in_the_directory_under_the_cursor() {
    let mut files = small();
    press(&mut files, plain('a'));
    let check = task(submit(&mut files, "  ui/menu.rs\t"));
    assert!(files.pending().is_none());
    match &check {
        Task::CheckCreate(creation) => {
            assert_eq!(creation.directory, Path::new("/w/src"));
            assert_eq!(creation.index, Some(0));
            assert_eq!(creation.path, Path::new("/w/src/ui/menu.rs"));
            assert!(!creation.directory_wanted);
        }
        other => panic!("{other:?}"),
    }

    let create = next(files.advance(check, Reply::Exists(false)));
    assert!(matches!(create, Task::Create(_)));
    let refresh = next(files.advance(create, Reply::Done));
    match &refresh {
        Task::Refresh(refreshing) => {
            assert_eq!(refreshing.directory, Path::new("/w/src"));
            assert_eq!(refreshing.index, Some(0));
            assert_eq!(refreshing.select.as_deref(), Some(Path::new("/w/src/ui/menu.rs")));
        }
        other => panic!("{other:?}"),
    }
    assert!(matches!(
        files.advance(refresh, Reply::Listing(vec![dir("/w/src/ui")])),
        Step::Finished
    ));
    assert_eq!(files.tree().len(), 3);
    assert_eq!(selected(&files), Path::new("/w/src"), "`ui` is shut, so it is not visible");
}

#[test]
fn a_created_file_is_selected() {
    let mut files = small();
    press(&mut files, plain('j'));
    press(&mut files, plain('a'));
    let check = task(submit(&mut files, "b.rs"));
    let create = next(files.advance(check, Reply::Exists(false)));
    let refresh = next(files.advance(create, Reply::Done));
    files.advance(refresh, Reply::Listing(vec![dir("/w/src"), file("/w/b.rs"), file("/w/a.rs")]));

    assert_eq!(files.tree().len(), 3);
    assert_eq!(selected(&files), Path::new("/w/b.rs"));
}

#[test]
fn a_directory_is_created_where_it_was_asked_for() {
    let mut files = small();
    press(&mut files, plain('j'));
    press(&mut files, shift('A'));
    match task(submit(&mut files, "docs")) {
        Task::CheckCreate(creation) => {
            assert_eq!(creation.directory, Path::new("/w"));
            assert_eq!(creation.index, None);
            assert_eq!(creation.path, Path::new("/w/docs"));
            assert!(creation.directory_wanted);
        }
        other => panic!("{other:?}"),
    }
}

#[test]
fn nothing_is_created_over_what_exists() {
    let mut files = small();
    let check = files.create("main.rs", false);
    let step = files.advance(check, Reply::Exists(true));

    assert_eq!(reported(step), "/w/src/main.rs already exists");
    assert_eq!(rows(&files), rows(&small()));
}

#[test]
fn a_failed_creation_is_reported() {
    let mut files = small();
    let check = files.create("x", true);
    let create = next(files.advance(check, Reply::Exists(false)));
    let step = files.advance(create, Reply::Failed("disk full".to_string()));

    assert_eq!(reported(step), "Failed to create /w/src/x: disk full");
}

#[test]
fn a_blank_name_does_nothing() {
    for event in [plain('a'), shift('A'), plain('r')] {
        let mut files = small();
        press(&mut files, event);
        assert!(matches!(submit(&mut files, " \t\u{a0}"), Outcome::Consumed));
        assert!(files.pending().is_none());
        assert_eq!(rows(&files), rows(&small()));
    }
}

#[test]
fn an_open_prompt_owns_the_keyboard() {
    let mut files = small();
    press(&mut files, plain('a'));
    for event in [plain('j'), plain('d'), shift('G'), named(KeyCode::PageDown), control('u')] {
        assert!(matches!(press(&mut files, event), Outcome::Edit));
    }
    assert!(matches!(press(&mut files, Event::Other), Outcome::Consumed));
    assert_eq!(files.tree().selected(), 0);
    assert!(files.confirm().is_none());
    assert!(files.pending().is_some());

    assert!(matches!(press(&mut files, named(KeyCode::Esc)), Outcome::Consumed));
    assert!(files.pending().is_none());
    press(&mut files, plain('a'));
    assert!(matches!(press(&mut files, control('c')), Outcome::Consumed));
    assert!(files.pending().is_none());
}

#[test]
fn a_rename_starts_from_the_current_name() {
    let mut files = small();
    press(&mut files, plain('j'));
    match press(&mut files, plain('r')) {
        Outcome::Ask { label, line } => assert_eq!((label, line.as_str()), ("rename to: ", "a.rs")),
        other => panic!("{other:?}"),
    }
    assert!(matches!(files.pending(), Some(Pending::Rename(path)) if path == Path::new("/w/a.rs")));
}

#[test]
fn a_rename_to_the_same_name_does_nothing() {
    let mut files = small();
    press(&mut files, plain('j'));
    press(&mut files, plain('r'));
    assert!(matches!(submit(&mut files, "a.rs"), Outcome::Consumed));
    assert!(matches!(files.rename(PathBuf::from("/w/a.rs"), "./a.rs"), Outcome::Consumed));
}

#[test]
fn a_rename_may_also_move() {
    let mut files = small();
    press(&mut files, plain('j'));
    press(&mut files, plain('r'));
    let check = task(submit(&mut files, "src/b.rs"));
    match &check {
        Task::CheckRename(renaming) => {
            assert_eq!(renaming.from, Path::new("/w/a.rs"));
            assert_eq!(renaming.to, Path::new("/w/src/b.rs"));
        }
        other => panic!("{other:?}"),
    }

    let rename = next(files.advance(check, Reply::Exists(false)));
    assert!(matches!(rename, Task::Rename(_)));
    match next(files.advance(rename, Reply::Done)) {
        Task::Refresh(refreshing) => {
            assert_eq!(refreshing.directory, Path::new("/w"));
            assert_eq!(refreshing.index, None);
            assert_eq!(refreshing.select.as_deref(), Some(Path::new("/w/src/b.rs")));
        }
        other => panic!("{other:?}"),
    }
}

#[test]
fn a_renamed_entry_is_selected_in_its_own_directory() {
    let mut files = opened();
    let outcome = files.rename(PathBuf::from("/w/src/main.rs"), "lib.rs");
    let rename = next(files.advance(task(outcome), Reply::Exists(false)));
    let refresh = next(files.advance(rename, Reply::Done));
    assert!(matches!(&refresh, Task::Refresh(refreshing) if refreshing.index == Some(0)));
    files.advance(refresh, Reply::Listing(vec![dir("/w/src/ui"), file("/w/src/lib.rs")]));

    assert_eq!(files.tree().len(), 4);
    assert_eq!(selected(&files), Path::new("/w/src/lib.rs"));
}

#[test]
fn nothing_is_renamed_onto_what_exists() {
    let mut files = small();
    let outcome = files.rename(PathBuf::from("/w/a.rs"), "src");
    let step = files.advance(task(outcome), Reply::Exists(true));

    assert_eq!(reported(step), "/w/src already exists");
    assert_eq!(rows(&files), rows(&small()));
}

#[test]
fn a_failed_rename_is_reported() {
    let mut files = small();
    let outcome = files.rename(PathBuf::from("/w/a.rs"), "b.rs");
    let rename = next(files.advance(task(outcome), Reply::Exists(false)));
    let step = files.advance(rename, Reply::Failed("busy".to_string()));

    assert_eq!(reported(step), "Failed to rename /w/a.rs: busy");
}

#[test]
fn the_filesystem_root_cannot_be_renamed() {
    match small().rename(PathBuf::from("/"), "x") {
        Outcome::Report(message) => assert_eq!(message, "Cannot rename the filesystem root"),
        other => panic!("{other:?}"),
    }
}

#[test]
fn deleting_asks_first() {
    let mut files = small();
    assert!(matches!(press(&mut files, plain('d')), Outcome::Consumed));
    let confirm = files.confirm().unwrap();
    assert_eq!(confirm.message, "delete src/ and everything in it? (y/N) ");
    assert_eq!(confirm.path, Path::new("/w/src"));
    assert!(confirm.recursive);

    let mut files = small();
    press(&mut files, plain('j'));
    press(&mut files, plain('d'));
    let confirm = files.confirm().unwrap();
    assert_eq!(confirm.message, "delete a.rs? (y/N) ");
    assert!(!confirm.recursive);
}

#[test]
fn every_key_but_y_cancels_a_deletion() {
    for event in [
        plain('n'),
        shift('Y'),
        control('y'),
        named(KeyCode::Enter),
        named(KeyCode::Esc),
        plain('d'),
        plain('j'),
    ] {
        let mut files = small();
        press(&mut files, plain('d'));
        assert!(matches!(press(&mut files, event), Outcome::Consumed), "{event:?}");
        assert!(files.confirm().is_none());
        assert_eq!(files.tree().selected(), 0);
    }

    let mut files = small();
    press(&mut files, plain('d'));
    assert!(matches!(press(&mut files, Event::Other), Outcome::Consumed));
    assert!(files.confirm().is_some(), "only a key is an answer");
}

#[test]
fn a_confirmed_deletion_reads_the_directory_again() {
    let mut files = opened();
    press(&mut files, plain('j'));
    press(&mut files, plain('j'));
    press(&mut files, plain('d'));
    let delete = task(press(&mut files, plain('y')));
    match &delete {
        Task::Delete(deletion) => {
            assert_eq!(deletion.path, Path::new("/w/src/main.rs"));
            assert_eq!(deletion.directory, Path::new("/w/src"));
            assert_eq!(deletion.index, Some(0));
            assert!(!deletion.recursive);
        }
        other => panic!("{other:?}"),
    }
    assert!(files.confirm().is_none());

    let refresh = next(files.advance(delete, Reply::Done));
    assert!(matches!(&refresh, Task::Refresh(refreshing) if refreshing.select.is_none()));
    files.advance(refresh, Reply::Listing(vec![dir("/w/src/ui")]));
    assert_eq!(
        rows(&files),
        [
            (Path::new("/w/src"), 0, true),
            (Path::new("/w/src/ui"), 1, false),
            (Path::new("/w/a.rs"), 0, false),
        ]
    );
}

#[test]
fn deleting_at_the_top_collapses_everything() {
    let mut files = opened();
    press(&mut files, shift('G'));
    press(&mut files, plain('d'));
    let delete = task(press(&mut files, plain('y')));
    assert!(matches!(&delete, Task::Delete(deletion) if deletion.index.is_none()));
    let refresh = next(files.advance(delete, Reply::Done));
    files.advance(refresh, Reply::Listing(vec![dir("/w/src")]));

    assert_eq!(rows(&files), [(Path::new("/w/src"), 0, false)]);
    assert_eq!(files.tree().selected(), 0);
}

#[test]
fn a_failed_deletion_is_reported() {
    let mut files = small();
    let delete = files.delete(PathBuf::from("/w/a.rs"), false);
    let step = files.advance(delete, Reply::Failed("denied".to_string()));

    assert_eq!(reported(step), "Failed to delete /w/a.rs: denied");
    assert_eq!(rows(&files), rows(&small()));
}

#[test]
fn a_refresh_that_fails_is_reported_and_still_selects() {
    let mut files = small();
    let outcome = files.rename(PathBuf::from("/w/b.rs"), "a.rs");
    let rename = next(files.advance(task(outcome), Reply::Exists(false)));
    let refresh = next(files.advance(rename, Reply::Done));
    let step = files.advance(refresh, Reply::Failed("gone".to_string()));

    assert_eq!(reported(step), "Failed to read /w/src: gone");
    assert_eq!(selected(&files), Path::new("/w/a.rs"));
}

#[test]
fn a_reply_to_another_question_changes_nothing() {
    for reply in [Reply::Done, Reply::Listing(vec![]), Reply::Failed("x".to_string())] {
        let mut files = small();
        let check = files.create("x", false);
        assert!(matches!(files.advance(check, reply), Step::Finished));
        assert_eq!(rows(&files), rows(&small()));
    }
    for reply in [Reply::Done, Reply::Exists(true)] {
        let mut files = small();
        let expansion = task(press(&mut files, plain('l')));
        assert!(matches!(files.advance(expansion, reply), Step::Finished));
        assert_eq!(rows(&files), rows(&small()));
    }
}

#[test]
fn new_entries_land_beside_a_file_or_inside_a_directory() {
    let mut files = opened();
    assert_eq!(files.target_directory(), (PathBuf::from("/w/src"), Some(0)));
    press(&mut files, plain('j'));
    assert_eq!(files.target_directory(), (PathBuf::from("/w/src/ui"), Some(1)));
    press(&mut files, plain('j'));
    assert_eq!(files.target_directory(), (PathBuf::from("/w/src"), Some(0)));
    press(&mut files, plain('j'));
    assert_eq!(files.target_directory(), (PathBuf::from("/w"), None));

    assert_eq!(files.containing_directory(1), (PathBuf::from("/w/src"), Some(0)));
    assert_eq!(files.containing_directory(0), (PathBuf::from("/w"), None));
}

#[test]
fn an_empty_tree_takes_every_key() {
    for character in ['j', 'k', 'g', 'o', 'l', 'h', 'r', 'd'] {
        let mut files: Files = FileTree::new(PathBuf::from("/w"), vec![], true);
        assert!(matches!(press(&mut files, plain(character)), Outcome::Consumed));
        assert!(files.pending().is_none());
        assert!(files.confirm().is_none());
        assert!(files.render_list(SCREEN).is_empty());
        assert!(files.render_preview(None).is_none());
    }
    let files: Files = FileTree::new(PathBuf::from("/w"), vec![], true);
    assert_eq!(files.target_directory(), (PathBuf::from("/w"), None));
}

#[test]
fn revealing_a_file_opens_its_directories() {
    let mut files = small();
    let first = next(files.reveal_path(PathBuf::from("/w/src/ui/menu.rs")));
    match &first {
        Task::Reveal(revelation) => {
            assert_eq!(revelation.index, 0);
            assert_eq!(revelation.directory, Path::new("/w/src"));
        }
        other => panic!("{other:?}"),
    }
    let found = vec![file("/w/src/main.rs"), dir("/w/src/ui")];
    let second = next(files.advance(first, Reply::Listing(found)));
    assert!(matches!(&second, Task::Reveal(revelation) if revelation.index == 1));
    let found = vec![file("/w/src/ui/menu.rs")];
    assert!(matches!(files.advance(second, Reply::Listing(found)), Step::Finished));

    assert_eq!(files.tree().len(), 5);
    assert_eq!(selected(&files), Path::new("/w/src/ui/menu.rs"));
}

#[test]
fn revealing_what_is_not_there_leaves_the_tree_as_it_is() {
    let mut files = small();
    assert!(matches!(files.reveal_path(PathBuf::from("/tmp/x.rs")), Step::Finished));
    assert_eq!(rows(&files), rows(&small()));

    let reveal = next(files.reveal_path(PathBuf::from("/w/src/main.rs")));
    assert!(matches!(files.advance(reveal, Reply::Failed("x".to_string())), Step::Finished));
    assert_eq!(rows(&files), rows(&small()));
}

#[test]
fn changes_invalidate_previews() {
    let mut files = small();
    let paths = ["/w/src/new", "/w/a.rs", "/w/b.rs", "/w/gone", "/w/kept"];
    for path in paths {
        files.previews_mut().insert(Path::new(path), Cached::Binary);
    }

    let check = files.create("new", false);
    let create = next(files.advance(check, Reply::Exists(false)));
    files.advance(create, Reply::Done);
    let outcome = files.rename(PathBuf::from("/w/a.rs"), "b.rs");
    let rename = next(files.advance(task(outcome), Reply::Exists(false)));
    files.advance(rename, Reply::Done);
    let delete = files.delete(PathBuf::from("/w/gone"), false);
    files.advance(delete, Reply::Done);

    for path in paths {
        let look = files.previews_mut().get(Path::new(path), None);
        assert_eq!(matches!(look, Look::Read), path != "/w/kept", "{path}");
    }
}

#[test]
fn changing_a_directory_invalidates_the_previews_below_it() {
    let fresh = |paths: &[&str]| {
        let mut files = small();
        for path in paths {
            files.previews_mut().insert(Path::new(path), Cached::Binary);
        }
        files
    };
    let gone = |files: &mut Files, path: &str| {
        matches!(files.previews_mut().get(Path::new(path), None), Look::Read)
    };

    let mut files = fresh(&["/w/src/ui/menu.rs", "/w/srcs"]);
    let delete = files.delete(PathBuf::from("/w/src"), true);
    files.advance(delete, Reply::Done);
    assert!(gone(&mut files, "/w/src/ui/menu.rs"));
    assert!(!gone(&mut files, "/w/srcs"));

    let mut files = fresh(&["/w/src/a.rs", "/w/lib/a.rs", "/w/a.rs"]);
    let outcome = files.rename(PathBuf::from("/w/src"), "lib");
    let rename = next(files.advance(task(outcome), Reply::Exists(false)));
    files.advance(rename, Reply::Done);
    assert!(gone(&mut files, "/w/src/a.rs"), "below the old name");
    assert!(gone(&mut files, "/w/lib/a.rs"), "below the new name");
    assert!(!gone(&mut files, "/w/a.rs"));
}

#[test]
fn the_preview_is_of_the_file_under_the_cursor() {
    let mut files = small();
    files.previews_mut().insert(Path::new("/w/a.rs"), Cached::TooLarge);
    assert!(matches!(files.render_preview(None), Some(Look::Read)));
    press(&mut files, plain('j'));
    match files.render_preview(None) {
        Some(Look::Show { preview, highlight }) => {
            assert_eq!(preview.placeholder(), Some("<file too large to preview>"));
            assert!(!highlight);
        }
        other => panic!("{other:?}"),
    }

    let edited = "edited".to_string();
    match files.render_preview(Some(&edited)) {
        Some(Look::Show { preview, .. }) => assert_eq!(preview.document(), Some(&edited)),
        other => panic!("{other:?}"),
    }
}

#[test]
fn the_preview_is_hidden_at_first() {
    let area = Rect { x: 0, y: 0, width: 200, height: 60 };
    assert_eq!(small().render(area), (area, None));
}

fn drawn(line: &Line) -> (usize, u32, u32, usize, &str, u32, u32, &str, usize, RowStyle) {
    (
        line.index,
        line.x,
        line.y,
        line.width,
        line.marker,
        line.icon_x,
        line.name_x,
        &line.name,
        line.name_width,
        line.style,
    )
}

#[test]
fn rows_are_drawn_as_indent_marker_icon_name() {
    assert_eq!((INDENT, MARKER_WIDTH, ICON_WIDTH), (2, 2, 2));
    let mut files = opened();
    press(&mut files, plain('j'));
    press(&mut files, plain('j'));
    let lines = files.render_list(SCREEN);

    assert_eq!(
        lines.iter().map(drawn).collect::<Vec<_>>(),
        [
            (0, 1, 1, 40, "▾ ", 3, 5, "src/", 36, RowStyle::Directory),
            (1, 3, 2, 38, "▸ ", 5, 7, "ui/", 34, RowStyle::Directory),
            (2, 3, 3, 38, "  ", 5, 7, "main.rs", 34, RowStyle::Selected),
            (3, 1, 4, 40, "  ", 3, 5, "a.rs", 36, RowStyle::Text),
        ]
    );
}

#[test]
fn a_narrow_list_has_no_room_for_names() {
    let mut files = opened();
    let lines = files.render_list(Rect { width: 1, ..SCREEN });

    assert_eq!(lines[1].width, 0);
    assert_eq!(lines[1].name_width, 0);
    assert_eq!(lines[1].x, 3);
}

fn drawn_rows(files: &mut Files, height: u16) -> Vec<usize> {
    files.render_list(Rect { height, ..SCREEN }).iter().map(|line| line.index).collect()
}

#[test]
fn the_view_follows_the_cursor_and_no_further() {
    let mut files = many();
    assert_eq!(drawn_rows(&mut files, 4), [0, 1, 2, 3]);
    for _ in 0..4 {
        press(&mut files, plain('j'));
    }
    assert_eq!(drawn_rows(&mut files, 4), [1, 2, 3, 4]);
    press(&mut files, plain('k'));
    assert_eq!(drawn_rows(&mut files, 4), [1, 2, 3, 4], "still on screen");
    press(&mut files, shift('G'));
    assert_eq!(drawn_rows(&mut files, 4), [6, 7, 8, 9]);
    assert_eq!(drawn_rows(&mut files, 6), [4, 5, 6, 7, 8, 9], "no empty room at the end");
    press(&mut files, plain('g'));
    assert_eq!(drawn_rows(&mut files, 6), [0, 1, 2, 3, 4, 5]);
    assert!(drawn_rows(&mut files, 0).is_empty());
}

#[test]
fn the_prompt_and_the_question_take_the_bottom_row() {
    let mut files = many();
    press(&mut files, plain('a'));
    assert_eq!(drawn_rows(&mut files, 4), [0, 1, 2]);
    press(&mut files, named(KeyCode::Esc));
    assert_eq!(drawn_rows(&mut files, 4), [0, 1, 2, 3]);
    press(&mut files, plain('d'));
    assert_eq!(drawn_rows(&mut files, 4), [0, 1, 2]);
}

#[test]
fn the_cursor_shows_in_the_prompt_only() {
    let mut files = small();
    assert_eq!(files.cursor(SCREEN), Cursor::Hidden);
    let below = Rect { y: u16::MAX, height: u16::MAX, ..SCREEN };
    assert_eq!(files.cursor(below), Cursor::Hidden, "no prompt, no row to compute");
    press(&mut files, plain('a'));
    assert_eq!(
        files.cursor(SCREEN),
        Cursor::Prompt(Rect { x: 1, y: 10, width: 40, height: 1 })
    );
    assert_eq!(files.id(), Some("file-tree"));
    assert_eq!(Files::ID, "file-tree");
}

#[test]
fn the_command_opens_an_existing_workspace_once_submitted() {
    assert_eq!(open(PromptEvent::Validate, true), Ok(true));
    assert_eq!(open(PromptEvent::Validate, false), Err("workspace directory does not exist"));
    assert_eq!(open(PromptEvent::Update, false), Ok(false));
    assert_eq!(open(PromptEvent::Abort, true), Ok(false));
}

#[test]
fn messages_name_the_path() {
    assert_eq!(taken(Path::new("/w/a b")), "/w/a b already exists");
    assert_eq!(failure("open", Path::new("/w/a"), "denied"), "Failed to open /w/a: denied");
}
