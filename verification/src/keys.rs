//! Input from the terminal, as far as the program looks at it.
use vstd::prelude::*;

verus! {

/// A key on the keyboard.
#[derive(Debug, Clone, Copy, PartialEq, Eq, Structural)]
pub enum KeyCode {
    Esc,
    Tab,
    BackTab,
    Enter,
    Backspace,
    Up,
    Down,
    PageUp,
    PageDown,
    Char(char),
    Other,
}

/// The keys that are held down along with a key.
#[derive(Debug, Clone, Copy, PartialEq, Eq, Structural)]
pub struct Modifiers {
    pub shift: bool,
    pub control: bool,
    /// Any other one.
    pub other: bool,
}

/// No key is held down.
pub open spec fn no_modifiers(m: Modifiers) -> bool {
    !m.shift && !m.control && !m.other
}

/// Only Shift is held down.
pub open spec fn only_shift(m: Modifiers) -> bool {
    m.shift && !m.control && !m.other
}

/// Only Control is held down.
pub open spec fn only_control(m: Modifiers) -> bool {
    !m.shift && m.control && !m.other
}

impl Modifiers {
    /// No key is held down.
    pub fn is_empty(self) -> (out: bool)
        ensures
            out == no_modifiers(self),
    {
        !self.shift && !self.control && !self.other
    }

    /// Only Shift is held down.
    pub fn is_shift(self) -> (out: bool)
        ensures
            out == only_shift(self),
    {
        self.shift && !self.control && !self.other
    }

    /// Only Control is held down.
    pub fn is_control(self) -> (out: bool)
        ensures
            out == only_control(self),
    {
        !self.shift && self.control && !self.other
    }
}

/// What happened to a key.
#[derive(Debug, Clone, Copy, PartialEq, Eq, Structural)]
pub enum KeyKind {
    Press,
    Repeat,
    Release,
}

/// Something happened to a key.
#[derive(Debug, Clone, Copy, PartialEq, Eq, Structural)]
pub struct KeyEvent {
    pub code: KeyCode,
    pub modifiers: Modifiers,
    pub kind: KeyKind,
}

/// What happened to the mouse.
#[derive(Debug, Clone, Copy, PartialEq, Eq, Structural)]
pub enum MouseKind {
    ScrollUp,
    ScrollDown,
    Other,
}

/// Something happened to the mouse.
#[derive(Debug, Clone, Copy, PartialEq, Eq, Structural)]
pub struct MouseEvent {
    pub kind: MouseKind,
    pub column: u16,
    pub row: u16,
}

/// Something happened at the terminal.
#[derive(Debug, Clone, PartialEq, Eq)]
pub enum InputEvent {
    Key(KeyEvent),
    Mouse(MouseEvent),
    Resize(u16, u16),
    Paste(String),
    Other,
}

impl InputEvent {
    /// An equal event.
    pub fn copy(&self) -> (out: InputEvent)
        ensures
            out == *self,
    {
        match self {
            InputEvent::Key(key) => InputEvent::Key(*key),
            InputEvent::Mouse(mouse) => InputEvent::Mouse(*mouse),
            InputEvent::Resize(columns, rows) => InputEvent::Resize(*columns, *rows),
            InputEvent::Paste(text) => InputEvent::Paste(text.clone()),
            InputEvent::Other => InputEvent::Other,
        }
    }
}

/// What a component made of an input.
#[derive(Debug, Clone, Copy, PartialEq, Eq, Structural)]
pub enum ActionStatus {
    /// It is dealt with.
    Handled,
    /// It is for others.
    Continue,
}

/// Whether a key types a character: alone or with Shift.
pub open spec fn types(modifiers: Modifiers) -> bool {
    no_modifiers(modifiers) || only_shift(modifiers)
}

/// A key that is held down with Control or another key types nothing; alone or with
/// Shift it does.
pub proof fn held_keys_type_nothing(modifiers: Modifiers)
    ensures
        types(modifiers) <==> !modifiers.control && !modifiers.other,
        only_control(modifiers) ==> !types(modifiers),
{
}

} // verus!
