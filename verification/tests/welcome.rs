use std::path::PathBuf;

use file_tree::config::{Config, ConfigError, Setting};
use file_tree::event::{Event, KeyCode, KeyEvent, Modifiers};
use file_tree::layout::{Cursor, Rect};
use file_tree::welcome::{layer, should_show, Args, Drawn, Item, LineStyle, Reaction, Welcome};

fn no_args() -> Args {
    Args { files: vec![], load_tutor: false }
}

#[test]
fn empty_config_is_the_default() {
    assert_eq!(Config::parse("").unwrap(), Config::default());
}

#[test]
fn fields_override_the_defaults() {
    let config = Config::parse(
        r#"
            enable = false
            banner = ["a", "b"]
            footer = "hello"
            "#,
    )
    .unwrap();

    assert!(!config.enable);
    assert_eq!(config.banner.unwrap(), ["a", "b"]);
    assert_eq!(config.footer.unwrap(), "hello");
}

#[test]
fn the_defaults_show_the_built_in_screen() {
    let config = Config::default();

    assert!(config.enable);
    assert_eq!(config.banner, None);
    assert_eq!(config.footer, None);
    assert_eq!(config.clone(), config);
}

#[test]
fn what_is_not_set_keeps_its_default() {
    let config = Config::parse("footer = \"carpe diem\"").unwrap();

    assert!(config.enable);
    assert_eq!(config.banner, None);
    assert_eq!(config.footer.as_deref(), Some("carpe diem"));
    assert_eq!(config.clone(), config);
}

#[test]
fn an_empty_list_is_set_all_the_same() {
    let config = Config::parse("banner = []\nfooter = \"\"").unwrap();

    assert_eq!(config.banner, Some(vec![]));
    assert_eq!(config.footer, Some(String::new()));
}

#[test]
fn a_file_that_is_not_toml_is_refused() {
    for source in ["enable = ", "enable = true\nenable = false", "]["] {
        match Config::parse(source) {
            Err(ConfigError::Malformed(error)) => assert!(!error.to_string().is_empty()),
            other => panic!("{other:?}"),
        }
    }
}

#[test]
fn an_unknown_key_is_refused() {
    assert!(matches!(Config::parse("baner = []"), Err(ConfigError::UnknownKey)));
    assert!(matches!(Config::parse("enable = false\n[menu]\na = 1"), Err(ConfigError::UnknownKey)));
}

#[test]
fn a_value_of_the_wrong_type_is_refused() {
    for source in [
        "enable = \"yes\"",
        "enable = 1",
        "banner = \"art\"",
        "banner = [\"a\", 1]",
        "footer = [\"a\"]",
        "footer = false",
        "footer = 1979-05-27",
        "footer = 1.5",
        "[footer]",
    ] {
        assert!(matches!(Config::parse(source), Err(ConfigError::WrongType)), "{source}");
    }
}

#[test]
fn settings_are_taken_as_they_come() {
    let config = Config::from_settings(vec![
        ("footer".to_string(), Setting::Text("bye".to_string())),
        ("banner".to_string(), Setting::List(vec![Some("x".to_string())])),
        ("enable".to_string(), Setting::Flag(false)),
    ])
    .unwrap();
    assert_eq!(
        config,
        Config {
            enable: false,
            banner: Some(vec!["x".to_string()]),
            footer: Some("bye".to_string()),
        }
    );

    for value in [Setting::Integer, Setting::Float, Setting::Datetime, Setting::Table] {
        assert!(matches!(
            Config::from_settings(vec![("footer".to_string(), value)]),
            Err(ConfigError::WrongType)
        ));
    }

    let mixed = Setting::List(vec![Some("x".to_string()), None]);
    assert!(matches!(
        Config::from_settings(vec![("banner".to_string(), mixed)]),
        Err(ConfigError::WrongType)
    ));
    assert!(matches!(
        Config::from_settings(vec![
            ("enable".to_string(), Setting::Integer),
            ("Enable".to_string(), Setting::Flag(true)),
        ]),
        Err(ConfigError::UnknownKey)
    ));
}

#[test]
fn a_missing_or_refused_file_starts_with_the_defaults() {
    assert_eq!(Config::load(None), Config::default());
    assert_eq!(Config::load(Some("][")), Config::default());
    assert_eq!(Config::load(Some("enable = 3")), Config::default());
    assert!(!Config::load(Some("enable = false")).enable);
}

#[test]
fn an_empty_banner_or_footer_is_hidden() {
    let art = vec!["art".to_string()];
    let built_in = Config::default();
    assert_eq!(built_in.banner_lines(&art), Some(&art));
    assert_eq!(built_in.footer_line("25.07").as_deref(), Some("helix 25.07"));

    let hidden = Config::parse("banner = []\nfooter = \"\"").unwrap();
    assert_eq!(hidden.banner_lines(&art), None);
    assert_eq!(hidden.footer_line("25.07"), None);

    let own = Config::parse("banner = [\"my own\"]\nfooter = \"carpe diem\"").unwrap();
    assert_eq!(own.banner_lines(&art), Some(&vec!["my own".to_string()]));
    assert_eq!(own.footer_line("25.07").as_deref(), Some("carpe diem"));
}

#[test]
fn the_screen_is_for_an_interactive_start_with_nothing_to_open() {
    assert!(should_show(&no_args(), false, true));
    assert!(!should_show(&no_args(), true, true));
    assert!(!should_show(&no_args(), false, false));
    assert!(!should_show(&Args { load_tutor: true, ..no_args() }, false, true));
    let files = vec![PathBuf::from("a.rs")];
    assert!(!should_show(&Args { files, ..no_args() }, false, true));
}

fn item(label: &str, hotkey: Option<char>) -> Item {
    Item { label: label.to_string(), hotkey }
}

fn menu() -> Vec<Item> {
    vec![item("find", Some('f')), item("new", Some('n')), item("quit", None)]
}

fn screen() -> Welcome {
    Welcome::new(&Config::default(), "25.07", menu())
}

fn key(code: KeyCode, modifiers: Modifiers) -> Event {
    Event::Key(KeyEvent { code, modifiers })
}

fn plain(character: char) -> Event {
    key(KeyCode::Char(character), Modifiers::Plain)
}

fn named(code: KeyCode) -> Event {
    key(code, Modifiers::Plain)
}

fn shown(lines: &[Drawn]) -> Vec<(u32, u32, &str, LineStyle)> {
    lines.iter().map(|line| (line.x, line.y, line.text.as_str(), line.style)).collect()
}

const AREA: Rect = Rect { x: 0, y: 0, width: 80, height: 24 };

#[test]
fn the_configuration_can_turn_the_screen_off() {
    let off = Config { enable: false, ..Config::default() };
    let on = Config::default();

    assert!(layer(&no_args(), false, true, &on, "25.07", menu()).is_some());
    assert!(layer(&no_args(), false, true, &off, "25.07", menu()).is_none());
    assert!(layer(&no_args(), true, true, &on, "25.07", menu()).is_none());
}

#[test]
fn the_screen_shows_banner_menu_and_footer() {
    let drawn = screen().render(AREA, false).unwrap();

    assert_eq!(
        shown(&drawn),
        [
            (36, 11, "welcome", LineStyle::Banner),
            (40, 12, "", LineStyle::Gap),
            (38, 13, "find", LineStyle::Selected),
            (38, 14, "new", LineStyle::Item),
            (38, 15, "quit", LineStyle::Item),
            (40, 16, "", LineStyle::Gap),
            (34, 17, "helix 25.07", LineStyle::Footer),
        ]
    );
}

#[test]
fn banner_lines_are_centered_individually() {
    let config = Config::parse("banner = [\"a\", \"bcd\", \"ef\"]\nfooter = \"\"").unwrap();
    let drawn = Welcome::new(&config, "25.07", vec![]).render(AREA, false).unwrap();

    assert_eq!(
        shown(&drawn),
        [
            (39, 10, "a", LineStyle::Banner),
            (38, 11, "bcd", LineStyle::Banner),
            (39, 12, "ef", LineStyle::Banner),
        ]
    );
}

#[test]
fn a_hidden_banner_and_footer_leave_the_menu() {
    let config = Config::parse("banner = []\nfooter = \"\"").unwrap();
    let drawn = Welcome::new(&config, "25.07", vec![item("quit", None)]).render(AREA, false).unwrap();
    assert_eq!(
        shown(&drawn),
        [(40, 11, "", LineStyle::Gap), (38, 12, "quit", LineStyle::Selected)]
    );

    let nothing = Welcome::new(&config, "25.07", vec![]);
    assert!(nothing.render(AREA, false).unwrap().is_empty());
}

#[test]
fn the_text_leaves_the_status_line_alone() {
    let welcome = Welcome::default();
    let middle = |area| shown_first(&welcome.render(area, false).unwrap());
    assert_eq!(middle(AREA), (36, 11, 1));
    assert_eq!(middle(Rect { x: 3, y: 2, width: 5, height: 0 }), (3, 2, 1));

    let low = screen().render(Rect { height: 6, ..AREA }, false).unwrap();
    assert_eq!(low.last().unwrap().y, 4, "the bottom row stays free");
    assert_eq!(low.len(), 3);
}

fn shown_first(lines: &[Drawn]) -> (u32, u32, usize) {
    assert_eq!(lines[0].text, "welcome");
    (lines[0].x, lines[0].y, lines.len())
}

#[test]
fn the_keys_of_the_menu_move_and_wrap() {
    let mut welcome = screen();
    for (event, expected) in [
        (plain('j'), 1),
        (named(KeyCode::Down), 2),
        (plain('j'), 0),
        (plain('k'), 2),
        (named(KeyCode::Up), 1),
        (plain('k'), 0),
    ] {
        assert_eq!(welcome.handle_event(&event, false), Reaction::Moved, "{event:?}");
        assert_eq!(welcome.selected(), expected, "{event:?}");
    }
    assert_eq!(welcome.render(AREA, false).unwrap()[2].style, LineStyle::Selected);
}

#[test]
fn enter_and_hotkeys_run_an_action() {
    let mut welcome = screen();
    assert_eq!(welcome.handle_event(&named(KeyCode::Enter), false), Reaction::Run(0));
    welcome.handle_event(&plain('k'), false);
    assert_eq!(welcome.handle_event(&named(KeyCode::Enter), false), Reaction::Run(2));
    assert_eq!(welcome.handle_event(&plain('n'), false), Reaction::Run(1));
    assert_eq!(welcome.handle_event(&plain('f'), false), Reaction::Run(0));
    assert_eq!(welcome.selected(), 2);
}

#[test]
fn moving_comes_before_a_hotkey() {
    let mut welcome = Welcome::new(
        &Config::default(),
        "25.07",
        vec![item("jump", Some('j')), item("first", Some('x')), item("second", Some('x'))],
    );
    assert_eq!(welcome.handle_event(&plain('j'), false), Reaction::Moved);
    assert_eq!(welcome.handle_event(&plain('x'), false), Reaction::Run(1));
}

#[test]
fn any_other_key_takes_the_screen_away() {
    for event in [
        plain('q'),
        plain('J'),
        named(KeyCode::Esc),
        named(KeyCode::Left),
        named(KeyCode::Other),
        key(KeyCode::Char('j'), Modifiers::Control),
        key(KeyCode::Char('n'), Modifiers::Shift),
        key(KeyCode::Enter, Modifiers::Other),
    ] {
        let mut welcome = screen();
        assert_eq!(welcome.handle_event(&event, false), Reaction::Leave, "{event:?}");
        assert_eq!(welcome.selected(), 0);
    }
    assert_eq!(screen().handle_event(&Event::Other, false), Reaction::Stay);
}

#[test]
fn an_empty_menu_still_owns_its_keys() {
    let mut welcome = Welcome::default();
    assert_eq!(welcome.handle_event(&plain('j'), false), Reaction::Moved);
    assert_eq!(welcome.handle_event(&plain('k'), false), Reaction::Moved);
    assert_eq!(welcome.selected(), 0);
    assert_eq!(welcome.handle_event(&named(KeyCode::Enter), false), Reaction::Run(0));
}

#[test]
fn an_open_document_retires_the_screen() {
    let mut welcome = screen();
    assert!(welcome.render(AREA, true).is_none());
    for event in [plain('j'), named(KeyCode::Enter), plain('q'), Event::Other] {
        assert_eq!(welcome.handle_event(&event, true), Reaction::Retire);
    }
    assert_eq!(welcome.selected(), 0);
    assert_eq!(welcome.cursor(true), None);
    assert_eq!(welcome.cursor(false), Some(Cursor::Hidden));
    assert_eq!(welcome.id(), Some("welcome"));
    assert_eq!(Welcome::ID, "welcome");
}
