use std::path::{Path, PathBuf};

use file_tree::layout::Rect;
use file_tree::preview::{
    classify, needs_sniff, rainbow_brackets, Cached, HighlightHandler, Kind, Loaded, Look, Metadata,
    Preview, Previews, Unreadable, Wait, HIGHLIGHT_DEBOUNCE, SNIFF_BYTES,
};

const LIMIT: u64 = 10 * 1024 * 1024;

fn regular(len: u64) -> Metadata {
    Metadata { is_dir: false, is_file: true, len }
}

fn loaded(text: &str, highlighted: bool) -> Loaded<String> {
    Loaded { document: text.to_string(), has_language: true, highlighted }
}

fn document(text: &str) -> Cached<String> {
    Cached::read(Ok(Kind::Text), Some(loaded(text, false)))
}

fn must_read(previews: &Previews<String>, path: &str) -> bool {
    matches!(previews.get(Path::new(path), None), Look::Read)
}

#[test]
fn a_text_file_is_previewable() {
    assert_eq!(classify(Some(regular(13)), LIMIT, Some(false)).unwrap(), Kind::Text);
}

#[test]
fn an_empty_file_is_previewable() {
    assert!(needs_sniff(&regular(0), LIMIT));
    assert_eq!(
        classify(Some(regular(0)), LIMIT, Some(false)).unwrap(),
        Kind::Text,
        "nothing to sniff is not the same as binary"
    );
}

#[test]
fn a_file_with_nul_bytes_is_binary() {
    assert_eq!(classify(Some(regular(6)), LIMIT, Some(true)).unwrap(), Kind::Binary);
}

#[test]
fn a_huge_file_is_refused_without_reading_it() {
    assert!(!needs_sniff(&regular(LIMIT + 1), LIMIT));
    assert_eq!(classify(Some(regular(LIMIT + 1)), LIMIT, None).unwrap(), Kind::TooLarge);
}

#[test]
fn a_directory_is_left_to_the_tree() {
    let directory = Metadata { is_dir: true, is_file: false, len: 4096 };

    assert!(!needs_sniff(&directory, LIMIT));
    assert_eq!(classify(Some(directory), LIMIT, None).unwrap(), Kind::Directory);
}

#[test]
fn a_missing_path_is_an_error() {
    assert!(classify(None, LIMIT, None).is_err());
    assert_eq!(classify(None, LIMIT, None), Err(Unreadable::NoMetadata));
}

#[test]
fn a_device_is_never_read() {
    let device = Metadata { is_dir: false, is_file: false, len: 0 };

    assert!(!needs_sniff(&device, LIMIT));
    assert_eq!(classify(Some(device), LIMIT, None), Err(Unreadable::NotRegular));
    assert_eq!(classify(Some(device), LIMIT, Some(false)), Err(Unreadable::NotRegular));
}

#[test]
fn a_file_of_the_limit_is_still_read() {
    assert!(needs_sniff(&regular(LIMIT), LIMIT));
    assert_eq!(classify(Some(regular(LIMIT)), LIMIT, Some(false)), Ok(Kind::Text));
    assert_eq!(
        classify(Some(regular(LIMIT)), LIMIT, None),
        Err(Unreadable::NoContents),
        "reading it failed"
    );
}

#[test]
fn each_kind_is_kept_as_what_it_is() {
    assert!(matches!(Cached::<String>::read(Ok(Kind::Directory), None), Cached::Directory));
    assert!(matches!(Cached::<String>::read(Ok(Kind::Binary), None), Cached::Binary));
    assert!(matches!(Cached::<String>::read(Ok(Kind::TooLarge), None), Cached::TooLarge));
    assert!(matches!(Cached::<String>::read(Ok(Kind::Text), None), Cached::Unreadable));
    for reason in [Unreadable::NoMetadata, Unreadable::NotRegular, Unreadable::NoContents] {
        assert!(matches!(Cached::<String>::read(Err(reason), None), Cached::Unreadable));
    }
    match document("text") {
        Cached::Document(loaded) => assert_eq!(loaded.document, "text"),
        other => panic!("{other:?}"),
    }
}

#[test]
fn a_preview_has_a_document_or_a_placeholder() {
    let cases = [
        (document("text"), Some("text"), None),
        (Cached::Directory, None, None),
        (Cached::Binary, None, Some("<binary file>")),
        (Cached::TooLarge, None, Some("<file too large to preview>")),
        (Cached::Unreadable, None, Some("<cannot be read>")),
    ];
    for (cached, text, placeholder) in &cases {
        let preview: Preview<String> = Preview::Cached(cached);
        assert_eq!(preview.document().map(|document| document.as_str()), *text);
        assert_eq!(preview.placeholder(), *placeholder);
    }

    let open = "edited".to_string();
    let preview = Preview::Open(&open);
    assert_eq!(preview.document(), Some(&open));
    assert_eq!(preview.placeholder(), None);
}

#[test]
fn a_placeholder_stands_in_the_middle() {
    let inner = Rect { x: 2, y: 1, width: 40, height: 10 };

    let binary: Preview<String> = Preview::Cached(&Cached::Binary);
    assert_eq!(binary.placeholder_in(inner), Some((15, 6, "<binary file>")));
    let directory: Preview<String> = Preview::Cached(&Cached::Directory);
    assert_eq!(directory.placeholder_in(inner), None);
}

#[test]
fn a_file_is_read_once() {
    let mut previews: Previews<String> = Previews::new();
    assert!(must_read(&previews, "/w/a.rs"));

    previews.insert(Path::new("/w/a.rs"), document("a"));
    previews.insert(Path::new("/w/b.rs"), Cached::Binary);
    assert!(!must_read(&previews, "/w/a.rs"));
    assert!(!must_read(&previews, "/w//a.rs"), "the same path, spelt otherwise");
    assert!(must_read(&previews, "/w/c.rs"));

    previews.forget(Path::new("/w/a.rs"));
    assert!(must_read(&previews, "/w/a.rs"));
    assert!(!must_read(&previews, "/w/b.rs"));
}

#[test]
fn forgetting_a_directory_forgets_what_is_below_it() {
    let mut previews: Previews<String> = Previews::new();
    let paths = ["/w/src", "/w/src/a.rs", "/w/src2/a.rs", "/w/src/ui/b.rs", "/w/c.rs"];
    for path in paths {
        previews.insert(Path::new(path), document(path));
    }

    previews.forget_below(Path::new("/w//src"));
    for path in paths {
        assert_eq!(must_read(&previews, path), path.starts_with("/w/src/") || path == "/w/src");
    }
    match previews.get(Path::new("/w/c.rs"), None) {
        Look::Show { preview, .. } => assert_eq!(preview.document().unwrap(), "/w/c.rs"),
        other => panic!("{other:?}"),
    }

    previews.forget_below(Path::new("/"));
    assert!(must_read(&previews, "/w/c.rs"));
}

#[test]
fn what_is_read_again_replaces_what_was_kept() {
    let mut previews: Previews<String> = Previews::default();
    previews.insert(Path::new("a"), document("old"));
    previews.insert(Path::new("a"), document("new"));

    match previews.get(Path::new("a"), None) {
        Look::Show { preview, highlight } => {
            assert_eq!(preview.document().unwrap(), "new");
            assert!(highlight);
        }
        other => panic!("{other:?}"),
    }
    previews.forget(Path::new("a"));
    assert!(must_read(&previews, "a"));
}

#[test]
fn a_file_open_in_the_editor_is_shown_as_it_is_there() {
    let mut previews: Previews<String> = Previews::new();
    previews.insert(Path::new("a"), document("on disk"));
    let edited = "edited".to_string();

    match previews.get(Path::new("a"), Some(&edited)) {
        Look::Show { preview, highlight } => {
            assert_eq!(preview.document(), Some(&edited));
            assert!(!highlight);
        }
        other => panic!("{other:?}"),
    }
}

#[test]
fn only_an_unparsed_document_asks_for_a_parse() {
    let mut previews: Previews<String> = Previews::new();
    previews.insert(Path::new("parsed"), Cached::read(Ok(Kind::Text), Some(loaded("x", true))));
    previews.insert(Path::new("binary"), Cached::Binary);

    for path in ["parsed", "binary"] {
        assert!(matches!(
            previews.get(Path::new(path), None),
            Look::Show { highlight: false, .. }
        ));
        assert!(previews.awaiting_highlight(Path::new(path)).is_none());
        assert!(previews.parse_target(Path::new(path)).is_none());
    }
}

#[test]
fn a_parse_is_put_in_once() {
    let mut previews: Previews<String> = Previews::new();
    let path = Path::new("a");
    previews.insert(path, document("text"));
    assert_eq!(previews.parse_target(path).unwrap().document, "text");

    assert!(previews.finish_highlight(path, false).is_none(), "the parse failed");
    assert!(previews.awaiting_highlight(path).is_some());

    previews.finish_highlight(path, true).unwrap().document.push_str(", parsed");
    match previews.get(path, None) {
        Look::Show { preview, highlight } => {
            assert_eq!(preview.document().unwrap(), "text, parsed");
            assert!(!highlight);
        }
        other => panic!("{other:?}"),
    }
    assert!(previews.finish_highlight(path, true).is_none());
    assert!(previews.finish_highlight(Path::new("gone"), true).is_none());
}

#[test]
fn a_document_without_a_language_is_not_parsed() {
    let mut previews: Previews<String> = Previews::new();
    let plain = Loaded { document: "x".to_string(), has_language: false, highlighted: false };
    previews.insert(Path::new("a"), Cached::read(Ok(Kind::Text), Some(plain)));

    assert!(previews.awaiting_highlight(Path::new("a")).is_some());
    assert!(previews.parse_target(Path::new("a")).is_none());
}

#[test]
fn resting_on_a_row_lets_the_wait_run_down() {
    let mut handler = HighlightHandler::default();
    assert_eq!(handler.finish_debounce(), None);

    assert_eq!(handler.handle_event(PathBuf::from("a")), Wait::Restart);
    assert_eq!(handler.handle_event(PathBuf::from("a")), Wait::Keep);
    assert_eq!(handler.handle_event(PathBuf::from("b")), Wait::Restart);
    assert_eq!(handler.finish_debounce(), Some(PathBuf::from("b")));
    assert_eq!(handler.finish_debounce(), None);
    assert_eq!(handler.handle_event(PathBuf::from("b")), Wait::Restart);
}

#[test]
fn the_language_decides_on_brackets_before_the_editor() {
    assert!(rainbow_brackets(Some(true), false));
    assert!(!rainbow_brackets(Some(false), true));
    assert!(rainbow_brackets(None, true));
    assert!(!rainbow_brackets(None, false));
}

#[test]
fn the_limits_of_sniffing_and_waiting() {
    assert_eq!(SNIFF_BYTES, 1024);
    assert_eq!(HIGHLIGHT_DEBOUNCE, 150);
}
