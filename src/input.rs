use vstd::prelude::*;

verus! {

/// A key of the keyboard, independent of any terminal library.
#[derive(Debug, Clone, Copy, PartialEq, Eq, Structural)]
pub enum Key {
    Char(char),
    F(u8),
    Backspace,
    Enter,
    Left,
    Right,
    Up,
    Down,
    Tab,
    Delete,
    Home,
    End,
    PageUp,
    PageDown,
    Esc,
    Null,
}

/// A key press with its modifiers.
#[derive(Debug, Clone, Copy, PartialEq, Eq, Structural)]
pub struct Input {
    pub key: Key,
    pub ctrl: bool,
    pub alt: bool,
    pub shift: bool,
}

impl Input {
    /// A key press without modifiers.
    pub fn plain(key: Key) -> (r: Input)
        ensures
            r == (Input { key, ctrl: false, alt: false, shift: false }),
    {
        Input { key, ctrl: false, alt: false, shift: false }
    }
}

} // verus!
