//! Keys as they come from the terminal.

use vstd::prelude::*;

verus! {

/// Which key it is.
#[derive(Debug, Clone, Copy, PartialEq, Eq, Structural)]
pub enum KeyCode {
    Char(char),
    Enter,
    Esc,
    Backspace,
    Delete,
    Tab,
    BackTab,
    Up,
    Down,
    Left,
    Right,
    Home,
    End,
    PageUp,
    PageDown,
    Other,
}

/// Whether a key went down, was held, or came up.
#[derive(Debug, Clone, Copy, PartialEq, Eq, Structural)]
pub enum KeyKind {
    Press,
    Repeat,
    Release,
}

/// The keys held down with it.
#[derive(Debug, Clone, Copy, PartialEq, Eq, Structural)]
pub struct Modifiers {
    pub control: bool,
    pub alt: bool,
    pub shift: bool,
    /// Any other one.
    pub other: bool,
}

/// A key event.
#[derive(Debug, Clone, Copy, PartialEq, Eq, Structural)]
pub struct KeyEvent {
    pub code: KeyCode,
    pub modifiers: Modifiers,
    pub kind: KeyKind,
}

impl Modifiers {
    /// No key.
    pub fn none() -> (r: Self)
        ensures
            r == (Modifiers { control: false, alt: false, shift: false, other: false }),
    {
        Modifiers { control: false, alt: false, shift: false, other: false }
    }

    /// The control key alone.
    pub fn control() -> (r: Self)
        ensures
            r == (Modifiers { control: true, alt: false, shift: false, other: false }),
    {
        Modifiers { control: true, alt: false, shift: false, other: false }
    }

    /// The alt key alone.
    pub fn alt() -> (r: Self)
        ensures
            r == (Modifiers { control: false, alt: true, shift: false, other: false }),
    {
        Modifiers { control: false, alt: true, shift: false, other: false }
    }

    /// The shift key alone.
    pub fn shift() -> (r: Self)
        ensures
            r == (Modifiers { control: false, alt: false, shift: true, other: false }),
    {
        Modifiers { control: false, alt: false, shift: true, other: false }
    }
}

impl Modifiers {
    /// Whether no key is held down with it.
    pub open spec fn plain(self) -> bool {
        !self.control && !self.alt && !self.shift && !self.other
    }

    /// Whether only shift is held down with it, or nothing.
    pub open spec fn at_most_shift(self) -> bool {
        !self.control && !self.alt && !self.other
    }

    /// Whether no key is held down with it.
    pub fn is_empty(self) -> (r: bool)
        ensures
            r == self.plain(),
    {
        !self.control && !self.alt && !self.shift && !self.other
    }

    /// Whether only shift is held down with it, or nothing.
    pub fn is_at_most_shift(self) -> (r: bool)
        ensures
            r == self.at_most_shift(),
    {
        !self.control && !self.alt && !self.other
    }
}

impl KeyEvent {
    /// A key that went down.
    pub fn new(code: KeyCode, modifiers: Modifiers) -> (r: Self)
        ensures
            r == (KeyEvent { code, modifiers, kind: KeyKind::Press }),
    {
        KeyEvent { code, modifiers, kind: KeyKind::Press }
    }
}

} // verus!
