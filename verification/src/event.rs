//! Terminal events, as far as they are told apart here.

use vstd::prelude::*;

verus! {

/// A key, without what is held down with it.
#[derive(Debug, Clone, Copy, PartialEq, Eq, Structural)]
pub enum KeyCode {
    Char(char),
    Enter,
    Esc,
    Up,
    Down,
    Left,
    Right,
    PageUp,
    PageDown,
    /// Any other key.
    Other,
}

/// What is held down with a key.
#[derive(Debug, Clone, Copy, PartialEq, Eq, Structural)]
pub enum Modifiers {
    /// Nothing.
    Plain,
    /// Shift alone.
    Shift,
    /// Control alone.
    Control,
    /// Anything else, combinations among it.
    Other,
}

/// A key press.
#[derive(Debug, Clone, Copy, PartialEq, Eq, Structural)]
pub struct KeyEvent {
    pub code: KeyCode,
    pub modifiers: Modifiers,
}

/// Something that happened in the terminal.
#[derive(Debug, Clone, Copy, PartialEq, Eq, Structural)]
pub enum Event {
    Key(KeyEvent),
    /// A paste, a resize, a change of focus or a mouse event.
    Other,
}

} // verus!
