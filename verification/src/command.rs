//! What each key asks of the tree.

use vstd::prelude::*;

use crate::event::{KeyCode, KeyEvent, Modifiers};

verus! {

/// Something the tree can be asked to do.
#[derive(Debug, Clone, Copy, PartialEq, Eq, Structural)]
pub enum Command {
    /// Close the tree.
    Close,
    /// One row down, wrapping.
    Next,
    /// One row up, wrapping.
    Previous,
    /// The first row.
    First,
    /// The last row.
    Last,
    /// Half a page down, stopping at the end.
    PageDown,
    /// Half a page up, stopping at the start.
    PageUp,
    /// Expand or collapse a directory, open a file.
    Activate,
    /// Collapse, or step out to the parent.
    Leave,
    CreateFile,
    CreateDirectory,
    Rename,
    Delete,
    /// Nothing. The tree is modal: a key that it has no use for is swallowed
    /// rather than let through to the buffer underneath.
    Swallow,
}

/// What a character asks for when nothing is held down with it.
pub open spec fn plain_command(character: char) -> Command {
    if character == 'j' {
        Command::Next
    } else if character == 'k' {
        Command::Previous
    } else if character == 'g' {
        Command::First
    } else if character == 'o' || character == 'l' {
        Command::Activate
    } else if character == 'h' {
        Command::Leave
    } else if character == 'a' {
        Command::CreateFile
    } else if character == 'r' {
        Command::Rename
    } else if character == 'd' {
        Command::Delete
    } else {
        Command::Swallow
    }
}

/// What a character asks for together with Shift.
pub open spec fn shift_command(character: char) -> Command {
    if character == 'G' {
        Command::Last
    } else if character == 'A' {
        Command::CreateDirectory
    } else {
        Command::Swallow
    }
}

/// What a character asks for together with Control.
pub open spec fn control_command(character: char) -> Command {
    if character == 'c' {
        Command::Close
    } else if character == 'n' {
        Command::Next
    } else if character == 'p' {
        Command::Previous
    } else if character == 'd' {
        Command::PageDown
    } else if character == 'u' {
        Command::PageUp
    } else {
        Command::Swallow
    }
}

/// What a key asks for.
pub open spec fn command_of(key: KeyEvent) -> Command {
    match key.modifiers {
        Modifiers::Plain => match key.code {
            KeyCode::Char(character) => plain_command(character),
            KeyCode::Esc => Command::Close,
            KeyCode::Down => Command::Next,
            KeyCode::Up => Command::Previous,
            KeyCode::PageDown => Command::PageDown,
            KeyCode::PageUp => Command::PageUp,
            KeyCode::Enter => Command::Activate,
            KeyCode::Right => Command::Activate,
            KeyCode::Left => Command::Leave,
            KeyCode::Other => Command::Swallow,
        },
        Modifiers::Shift => match key.code {
            KeyCode::Char(character) => shift_command(character),
            _ => Command::Swallow,
        },
        Modifiers::Control => match key.code {
            KeyCode::Char(character) => control_command(character),
            _ => Command::Swallow,
        },
        Modifiers::Other => Command::Swallow,
    }
}

/// The key that answers yes.
pub open spec fn is_yes(key: KeyEvent) -> bool {
    key == (KeyEvent { code: KeyCode::Char('y'), modifiers: Modifiers::Plain })
}

/// The key that submits a prompt.
pub open spec fn is_submit(key: KeyEvent) -> bool {
    key == (KeyEvent { code: KeyCode::Enter, modifiers: Modifiers::Plain })
}

/// The keys that close a prompt.
pub open spec fn is_cancel(key: KeyEvent) -> bool {
    ||| key == (KeyEvent { code: KeyCode::Esc, modifiers: Modifiers::Plain })
    ||| key == (KeyEvent { code: KeyCode::Char('c'), modifiers: Modifiers::Control })
}

/// What a key asks for.
pub fn command(key: KeyEvent) -> (command: Command)
    ensures
        command == command_of(key),
{
    match (key.modifiers, key.code) {
        (Modifiers::Plain, KeyCode::Char(character)) => match character {
            'j' => Command::Next,
            'k' => Command::Previous,
            'g' => Command::First,
            'o' | 'l' => Command::Activate,
            'h' => Command::Leave,
            'a' => Command::CreateFile,
            'r' => Command::Rename,
            'd' => Command::Delete,
            _ => Command::Swallow,
        },
        (Modifiers::Plain, KeyCode::Esc) => Command::Close,
        (Modifiers::Plain, KeyCode::Down) => Command::Next,
        (Modifiers::Plain, KeyCode::Up) => Command::Previous,
        (Modifiers::Plain, KeyCode::PageDown) => Command::PageDown,
        (Modifiers::Plain, KeyCode::PageUp) => Command::PageUp,
        (Modifiers::Plain, KeyCode::Enter) => Command::Activate,
        (Modifiers::Plain, KeyCode::Right) => Command::Activate,
        (Modifiers::Plain, KeyCode::Left) => Command::Leave,
        (Modifiers::Shift, KeyCode::Char(character)) => match character {
            'G' => Command::Last,
            'A' => Command::CreateDirectory,
            _ => Command::Swallow,
        },
        (Modifiers::Control, KeyCode::Char(character)) => match character {
            'c' => Command::Close,
            'n' => Command::Next,
            'p' => Command::Previous,
            'd' => Command::PageDown,
            'u' => Command::PageUp,
            _ => Command::Swallow,
        },
        _ => Command::Swallow,
    }
}

/// Whether a key answers yes.
pub fn answers_yes(key: KeyEvent) -> (yes: bool)
    ensures
        yes == is_yes(key),
{
    match (key.modifiers, key.code) {
        (Modifiers::Plain, KeyCode::Char('y')) => true,
        _ => false,
    }
}

/// Whether a key submits a prompt.
pub fn submits(key: KeyEvent) -> (submit: bool)
    ensures
        submit == is_submit(key),
{
    match (key.modifiers, key.code) {
        (Modifiers::Plain, KeyCode::Enter) => true,
        _ => false,
    }
}

/// Whether a key closes a prompt.
pub fn cancels(key: KeyEvent) -> (cancel: bool)
    ensures
        cancel == is_cancel(key),
{
    match (key.modifiers, key.code) {
        (Modifiers::Plain, KeyCode::Esc) => true,
        (Modifiers::Control, KeyCode::Char('c')) => true,
        _ => false,
    }
}

} // verus!
