//! Key presses as plain values.

use vstd::prelude::*;

verus! {

/// The modifier bit of the Shift key.
pub const SHIFT: u8 = 0b0000_0001;

/// The modifier bit of the Control key.
pub const CONTROL: u8 = 0b0000_0010;

/// The modifier bit of the Alt key.
pub const ALT: u8 = 0b0000_0100;

/// The key that was pressed.
#[derive(Debug, Clone, Copy, PartialEq, Eq, Hash, Structural)]
pub enum KeyCode {
    Backspace,
    Enter,
    Left,
    Right,
    Up,
    Down,
    Home,
    End,
    PageUp,
    PageDown,
    Tab,
    BackTab,
    Delete,
    Insert,
    /// A function key, by its number.
    F(u8),
    /// A key that types a character.
    Char(char),
    Esc,
    /// A key without a name here.
    Other,
}

/// The modifier keys held during a key press, one bit for each.
#[derive(Debug, Clone, Copy, PartialEq, Eq, Hash, Structural)]
pub struct KeyModifiers {
    pub bits: u8,
}

/// A key press: the key and the modifier keys held with it.
#[derive(Debug, Clone, Copy, PartialEq, Eq, Hash, Structural)]
pub struct KeyEvent {
    pub code: KeyCode,
    pub modifiers: KeyModifiers,
}

impl KeyEvent {
    /// The press of `code` with the modifier keys of `bits`.
    pub fn new(code: KeyCode, bits: u8) -> (r: Self)
        ensures
            r == (KeyEvent { code, modifiers: KeyModifiers { bits } }),
    {
        KeyEvent { code, modifiers: KeyModifiers { bits } }
    }

    /// Whether this is the key combination that ends the program at once:
    /// `c` or `C` with Control and no other modifier key.
    pub open spec fn is_force_quit(self) -> bool {
        self.modifiers.bits == CONTROL && (self.code == KeyCode::Char('c') || self.code
            == KeyCode::Char('C'))
    }

    /// Whether this is the key that opens and closes the help page: F1,
    /// whatever modifier keys are held with it. No text field, list or
    /// calendar has a use for it.
    pub open spec fn is_help_key(self) -> bool {
        self.code == KeyCode::F(1)
    }

    /// Whether this is the key that opens and closes the help page.
    pub fn is_help(&self) -> (r: bool)
        ensures
            r == self.is_help_key(),
    {
        match self.code {
            KeyCode::F(n) => n == 1,
            _ => false,
        }
    }

    /// Whether Shift and no other modifier key is held.
    pub open spec fn is_shift_only(self) -> bool {
        self.modifiers.bits == SHIFT
    }
}

} // verus!
