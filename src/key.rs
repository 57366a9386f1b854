//! Key events, already decoded from the terminal.

use vstd::prelude::*;

verus! {

/// A key event.
#[derive(Clone, Copy, Debug, PartialEq, Eq, Structural)]
pub enum Key {
    /// A printable character, or tab and line feed.
    Char(char),
    /// A letter or digit typed with Control held.
    Ctrl(char),
    /// A function key.
    F(u8),
    Esc,
    Left,
    Right,
    Up,
    Down,
    Home,
    End,
    PageUp,
    PageDown,
    BackTab,
    Delete,
    Backspace,
    /// Any other key.
    Other,
}

} // verus!
