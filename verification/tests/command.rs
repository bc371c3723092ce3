use file_tree::command::{answers_yes, cancels, command, submits, Command};
use file_tree::event::{KeyCode, KeyEvent, Modifiers};
use file_tree::text::trim;

fn key(code: KeyCode, modifiers: Modifiers) -> KeyEvent {
    KeyEvent { code, modifiers }
}

fn plain(character: char) -> KeyEvent {
    key(KeyCode::Char(character), Modifiers::Plain)
}

fn shift(character: char) -> KeyEvent {
    key(KeyCode::Char(character), Modifiers::Shift)
}

fn control(character: char) -> KeyEvent {
    key(KeyCode::Char(character), Modifiers::Control)
}

fn named(code: KeyCode) -> KeyEvent {
    key(code, Modifiers::Plain)
}

#[test]
fn every_key_has_its_command() {
    let table = [
        (vec![named(KeyCode::Esc), control('c')], Command::Close),
        (vec![plain('j'), named(KeyCode::Down), control('n')], Command::Next),
        (vec![plain('k'), named(KeyCode::Up), control('p')], Command::Previous),
        (vec![plain('g')], Command::First),
        (vec![shift('G')], Command::Last),
        (vec![named(KeyCode::PageDown), control('d')], Command::PageDown),
        (vec![named(KeyCode::PageUp), control('u')], Command::PageUp),
        (
            vec![plain('o'), plain('l'), named(KeyCode::Enter), named(KeyCode::Right)],
            Command::Activate,
        ),
        (vec![plain('h'), named(KeyCode::Left)], Command::Leave),
        (vec![plain('a')], Command::CreateFile),
        (vec![shift('A')], Command::CreateDirectory),
        (vec![plain('r')], Command::Rename),
        (vec![plain('d')], Command::Delete),
    ];
    for (keys, expected) in &table {
        for pressed in keys {
            assert_eq!(command(*pressed), *expected, "{pressed:?}");
        }
    }
}

#[test]
fn every_other_key_is_swallowed() {
    for pressed in [
        plain('G'),
        plain('A'),
        plain('x'),
        plain('q'),
        shift('j'),
        control('j'),
        named(KeyCode::Other),
        key(KeyCode::Esc, Modifiers::Shift),
        key(KeyCode::Down, Modifiers::Control),
        key(KeyCode::Char('j'), Modifiers::Other),
    ] {
        assert_eq!(command(pressed), Command::Swallow, "{pressed:?}");
    }
}

#[test]
fn only_a_plain_y_is_a_yes() {
    assert!(answers_yes(plain('y')));
    for pressed in [
        plain('Y'),
        shift('Y'),
        control('y'),
        plain('n'),
        named(KeyCode::Enter),
        named(KeyCode::Esc),
        key(KeyCode::Char('y'), Modifiers::Other),
    ] {
        assert!(!answers_yes(pressed), "{pressed:?}");
    }
}

#[test]
fn enter_submits_and_escape_cancels() {
    assert!(submits(named(KeyCode::Enter)));
    assert!(!submits(key(KeyCode::Enter, Modifiers::Shift)));
    assert!(!submits(named(KeyCode::Esc)));

    assert!(cancels(named(KeyCode::Esc)));
    assert!(cancels(control('c')));
    assert!(!cancels(plain('c')));
    assert!(!cancels(named(KeyCode::Enter)));
}

#[test]
fn white_space_is_trimmed_at_both_ends() {
    assert_eq!(trim("  a b \t\n"), "a b");
    assert_eq!(trim("\u{3000}é \u{a0}"), "é");
    assert_eq!(trim(" \t "), "");
    assert_eq!(trim(""), "");
    assert_eq!(trim("\u{200b}x"), "\u{200b}x", "a zero-width space is no white space");
}
