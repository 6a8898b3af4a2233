//! The keys and the mouse events that the screen logic reads.
//!
//! The terminal library reports a key as a code and a set of modifier keys,
//! and a mouse event as a kind, a position and the same set. The logic of this
//! crate reads these plain values; the program that talks to the terminal
//! makes them from the events of the terminal.

use vstd::prelude::*;

verus! {

/// The modifier keys that were down with a key or a mouse event.
#[derive(Clone, Copy, Debug, PartialEq, Eq, Structural)]
pub struct KeyModifiers {
    /// The shift key.
    pub shift: bool,
    /// The control key.
    pub control: bool,
    /// The alt key, which the Option key of a Mac sends.
    pub alt: bool,
    /// The super key.
    pub super_key: bool,
    /// The hyper key.
    pub hyper: bool,
    /// The meta key.
    pub meta: bool,
}

impl KeyModifiers {
    /// No modifier key.
    pub fn none() -> (r: KeyModifiers)
        ensures
            r == KeyModifiers::spec_none(),
    {
        KeyModifiers {
            shift: false,
            control: false,
            alt: false,
            super_key: false,
            hyper: false,
            meta: false,
        }
    }

    /// The set with no modifier key.
    pub open spec fn spec_none() -> KeyModifiers {
        KeyModifiers {
            shift: false,
            control: false,
            alt: false,
            super_key: false,
            hyper: false,
            meta: false,
        }
    }

    /// The control key alone.
    pub fn control() -> (r: KeyModifiers)
        ensures
            r == (KeyModifiers { control: true, ..KeyModifiers::spec_none() }),
    {
        KeyModifiers { control: true, ..KeyModifiers::none() }
    }

    /// The shift key alone.
    pub fn shift() -> (r: KeyModifiers)
        ensures
            r == (KeyModifiers { shift: true, ..KeyModifiers::spec_none() }),
    {
        KeyModifiers { shift: true, ..KeyModifiers::none() }
    }

    /// The alt key alone.
    pub fn alt() -> (r: KeyModifiers)
        ensures
            r == (KeyModifiers { alt: true, ..KeyModifiers::spec_none() }),
    {
        KeyModifiers { alt: true, ..KeyModifiers::none() }
    }

    /// Gives each key of `self` or of `other`.
    pub fn union(self, other: KeyModifiers) -> (r: KeyModifiers)
        ensures
            r.shift == (self.shift || other.shift),
            r.control == (self.control || other.control),
            r.alt == (self.alt || other.alt),
            r.super_key == (self.super_key || other.super_key),
            r.hyper == (self.hyper || other.hyper),
            r.meta == (self.meta || other.meta),
    {
        KeyModifiers {
            shift: self.shift || other.shift,
            control: self.control || other.control,
            alt: self.alt || other.alt,
            super_key: self.super_key || other.super_key,
            hyper: self.hyper || other.hyper,
            meta: self.meta || other.meta,
        }
    }
}

/// A key of the keyboard.
#[derive(Clone, Copy, Debug, PartialEq, Eq, Structural)]
pub enum KeyCode {
    /// The key that removes the character before the cursor.
    Backspace,
    /// The key Enter.
    Enter,
    /// The arrow to the left.
    Left,
    /// The arrow to the right.
    Right,
    /// The arrow up.
    Up,
    /// The arrow down.
    Down,
    /// The key Home.
    Home,
    /// The key End.
    End,
    /// The key PgUp.
    PageUp,
    /// The key PgDn.
    PageDown,
    /// The key Tab.
    Tab,
    /// The key Tab with the shift key.
    BackTab,
    /// The key Delete.
    Delete,
    /// The key Insert.
    Insert,
    /// A function key, such as F1.
    F(u8),
    /// A key that types a character.
    Char(char),
    /// The null key.
    Null,
    /// The key Esc.
    Esc,
    /// Any other key, such as a media key. No command uses one.
    Other,
}

/// One press of a key.
#[derive(Clone, Copy, Debug, PartialEq, Eq, Structural)]
pub struct KeyEvent {
    /// The key.
    pub code: KeyCode,
    /// The modifier keys that were down.
    pub modifiers: KeyModifiers,
}

/// A key with no control key and no alt key.
pub open spec fn plain(key: KeyEvent) -> bool {
    !key.modifiers.control && !key.modifiers.alt
}

impl KeyEvent {
    /// Makes the record of one press.
    pub fn new(code: KeyCode, modifiers: KeyModifiers) -> (r: KeyEvent)
        ensures
            r.code == code,
            r.modifiers == modifiers,
    {
        KeyEvent { code, modifiers }
    }
}

/// A button of the mouse.
#[derive(Clone, Copy, Debug, PartialEq, Eq, Structural)]
pub enum MouseButton {
    /// The left button.
    Left,
    /// The right button.
    Right,
    /// The middle button.
    Middle,
}

/// What the mouse did.
#[derive(Clone, Copy, Debug, PartialEq, Eq, Structural)]
pub enum MouseEventKind {
    /// A button went down.
    Down(MouseButton),
    /// A button went up.
    Up(MouseButton),
    /// The pointer moved with a button down.
    Drag(MouseButton),
    /// The pointer moved with no button down.
    Moved,
    /// The wheel turned toward the user.
    ScrollDown,
    /// The wheel turned away from the user.
    ScrollUp,
    /// The wheel turned to the left.
    ScrollLeft,
    /// The wheel turned to the right.
    ScrollRight,
}

/// One event of the mouse.
#[derive(Clone, Copy, Debug, PartialEq, Eq, Structural)]
pub struct MouseEvent {
    /// What the mouse did.
    pub kind: MouseEventKind,
    /// The column of the terminal.
    pub column: u16,
    /// The row of the terminal.
    pub row: u16,
    /// The modifier keys that were down.
    pub modifiers: KeyModifiers,
}

} // verus!
