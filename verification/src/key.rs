//! Keys as the editor sees them.

use vstd::prelude::*;

verus! {

/// A key without its modifiers.
#[derive(Clone, Copy, Debug, PartialEq, Eq, Structural)]
pub enum KeyCode {
    Char(char),
    Enter,
    Esc,
    Tab,
    Backspace,
    Delete,
    Left,
    Right,
    Up,
    Down,
    Home,
    End,
    PageUp,
    PageDown,
    /// A key that the editor has no use for.
    Other,
}

/// The modifiers held with a key.
#[derive(Clone, Copy, Debug, PartialEq, Eq, Structural)]
pub enum KeyModifiers {
    Plain,
    /// Shift alone.
    Shift,
    /// Control alone.
    Control,
    /// Any other combination.
    Other,
}

impl KeyModifiers {
    /// Whether a character key with these modifiers types the character.
    pub open spec fn typing(self) -> bool {
        self == KeyModifiers::Plain || self == KeyModifiers::Shift
    }

    /// Whether a character key with these modifiers types the character.
    pub fn is_typing(self) -> (typing: bool)
        ensures
            typing == self.typing(),
    {
        self == KeyModifiers::Plain || self == KeyModifiers::Shift
    }
}

} // verus!
