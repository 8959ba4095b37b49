//! Terminal input events, as far as applications read them.
//!
//! The input backend reports far more than this: every key on the keyboard,
//! mouse positions, pasted text. An application built on this runtime looks
//! at the part held here, and whoever reads the backend converts.
use vstd::prelude::*;

verus! {

/// The modifier set that holds the control key and nothing else.
pub const CONTROL: u8 = 2;

/// Which key an event is about.
#[derive(Debug, Clone, Copy, PartialEq, Eq, Structural)]
pub enum KeyCode {
    Esc,
    Left,
    Right,
    /// A key that produces a character.
    Char(char),
    /// Any other key.
    Other,
}

/// What happened to the key.
#[derive(Debug, Clone, Copy, PartialEq, Eq, Structural)]
pub enum KeyEventKind {
    Press,
    Repeat,
    Release,
}

/// One key event: the key, the set of modifiers held with it (one bit
/// each), and what happened.
#[derive(Debug, Clone, Copy, PartialEq, Eq, Structural)]
pub struct KeyEvent {
    pub code: KeyCode,
    pub modifiers: u8,
    pub kind: KeyEventKind,
}

/// One raw input event.
#[derive(Debug, Clone, Copy, PartialEq, Eq, Structural)]
pub enum Event {
    FocusGained,
    FocusLost,
    Key(KeyEvent),
    Mouse,
    Paste,
    Resize,
}

} // verus!
