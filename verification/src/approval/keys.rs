//! Keys, and what they are bound to.

use vstd::prelude::*;

verus! {

/// A key.
#[derive(Clone, Copy, Debug, PartialEq, Eq)]
pub enum KeyCode {
    /// A character.
    Char(char),
    /// The enter key.
    Enter,
    /// The escape key.
    Esc,
    /// The tabulator key.
    Tab,
    /// Any other key.
    Other,
}

/// The keys that are held besides.
#[derive(Clone, Copy, Debug, PartialEq, Eq)]
pub struct KeyModifiers {
    /// The shift key.
    pub shift: bool,
    /// The control key.
    pub control: bool,
    /// The alt key.
    pub alt: bool,
    /// Any other.
    pub other: bool,
}

/// What is done to a key.
#[derive(Clone, Copy, Debug, PartialEq, Eq, Structural)]
pub enum KeyEventKind {
    /// It is pressed.
    Press,
    /// It is held.
    Repeat,
    /// It is let go.
    Release,
}

/// Something done to a key.
#[derive(Clone, Copy, Debug, PartialEq, Eq)]
pub struct KeyEvent {
    /// The key.
    pub code: KeyCode,
    /// The keys that are held besides.
    pub modifiers: KeyModifiers,
    /// What is done to it.
    pub kind: KeyEventKind,
}

/// A key that something is bound to.
#[derive(Clone, Copy, Debug, PartialEq, Eq)]
pub struct KeyBinding {
    /// The key.
    pub code: KeyCode,
    /// The keys that are held besides.
    pub modifiers: KeyModifiers,
}

impl KeyModifiers {
    /// No keys.
    pub open spec fn none() -> KeyModifiers {
        KeyModifiers { shift: false, control: false, alt: false, other: false }
    }

    /// No keys.
    pub fn empty() -> (modifiers: KeyModifiers)
        ensures
            modifiers == KeyModifiers::none(),
    {
        KeyModifiers { shift: false, control: false, alt: false, other: false }
    }

    /// Whether the same keys are held.
    pub fn same(&self, other: &KeyModifiers) -> (same: bool)
        ensures
            same == (*self == *other),
    {
        self.shift == other.shift && self.control == other.control && self.alt == other.alt
            && self.other == other.other
    }
}

impl KeyCode {
    /// Whether it is the same key.
    pub fn same(&self, other: &KeyCode) -> (same: bool)
        ensures
            same == (*self == *other),
    {
        match (self, other) {
            (KeyCode::Char(left), KeyCode::Char(right)) => *left == *right,
            (KeyCode::Enter, KeyCode::Enter) => true,
            (KeyCode::Esc, KeyCode::Esc) => true,
            (KeyCode::Tab, KeyCode::Tab) => true,
            (KeyCode::Other, KeyCode::Other) => true,
            _ => false,
        }
    }
}

impl KeyEvent {
    /// A key that is pressed.
    pub fn new(code: KeyCode, modifiers: KeyModifiers) -> (event: KeyEvent)
        ensures
            event == (KeyEvent { code, modifiers, kind: KeyEventKind::Press }),
    {
        KeyEvent { code, modifiers, kind: KeyEventKind::Press }
    }
}

/// A key by itself.
pub open spec fn plain_key(code: KeyCode) -> KeyBinding {
    KeyBinding { code, modifiers: KeyModifiers::none() }
}

/// A key by itself.
pub fn plain(code: KeyCode) -> (binding: KeyBinding)
    ensures
        binding == plain_key(code),
{
    KeyBinding { code, modifiers: KeyModifiers::empty() }
}

/// Whether something done to a key is what a binding is for.
pub open spec fn pressed(binding: KeyBinding, event: KeyEvent) -> bool {
    &&& binding.code == event.code
    &&& binding.modifiers == event.modifiers
    &&& event.kind == KeyEventKind::Press || event.kind == KeyEventKind::Repeat
}

impl KeyBinding {
    /// Whether something done to a key is what the binding is for.
    pub fn is_press(&self, event: &KeyEvent) -> (bound: bool)
        ensures
            bound == pressed(*self, *event),
    {
        self.code.same(&event.code) && self.modifiers.same(&event.modifiers) && (event.kind
            == KeyEventKind::Press || event.kind == KeyEventKind::Repeat)
    }
}

} // verus!
