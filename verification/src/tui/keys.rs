//! The key events the editors react to, as plain values.
use vstd::prelude::*;

verus! {

/// Which key was pressed.
#[derive(Clone, Copy, Debug, PartialEq, Eq, Structural)]
pub enum KeyCode {
    Char(char),
    Esc,
    Tab,
    BackTab,
    Enter,
    Backspace,
    Delete,
    Left,
    Right,
    Up,
    Down,
    Home,
    End,
    Insert,
    PageUp,
    PageDown,
    /// A function key, by its number.
    F(u8),
    Other,
}

/// A key together with whether Control or Alt was held.
#[derive(Clone, Copy, Debug, PartialEq, Eq, Structural)]
pub struct KeyPress {
    pub code: KeyCode,
    pub control: bool,
    pub alt: bool,
}

impl KeyPress {
    /// A key pressed without modifiers.
    pub fn plain(code: KeyCode) -> (r: KeyPress)
        ensures
            r.code == code,
            !r.control,
            !r.alt,
    {
        KeyPress { code, control: false, alt: false }
    }

    /// A key pressed with Control held.
    pub fn ctrl(code: KeyCode) -> (r: KeyPress)
        ensures
            r.code == code,
            r.control,
            !r.alt,
    {
        KeyPress { code, control: true, alt: false }
    }

    /// A key pressed with Alt held.
    pub fn alt(code: KeyCode) -> (r: KeyPress)
        ensures
            r.code == code,
            !r.control,
            r.alt,
    {
        KeyPress { code, control: false, alt: true }
    }
}

} // verus!
