//! The input-side data model: keys, user actions, and the modifier state a
//! text widget tracks across key events.

use vstd::prelude::*;
use crate::output::XY;

verus! {

/// A key on the keyboard.
#[derive(Clone, Copy, PartialEq, Eq, Structural, Debug)]
pub enum Key {
    Char(char),
    F(usize),
    Enter,
    Tab,
    Backspace,
    Delete,
    Escape,
    Left,
    Right,
    Up,
    Down,
    Home,
    End,
    PageUp,
    PageDown,
    LeftShift,
    RightShift,
    LeftCtrl,
    RightCtrl,
    LeftAlt,
    RightAlt,
}

/// A mouse button.
#[derive(Clone, Copy, PartialEq, Eq, Structural, Debug)]
pub enum MouseButton {
    Left,
    Middle,
    Right,
}

/// One thing the user (or the display backend) did.
#[derive(Clone, PartialEq, Debug)]
pub enum Action {
    KeyPress { key: Key },
    KeyRelease { key: Key },
    MousePress { button: MouseButton, pos: XY },
    MouseRelease { button: MouseButton, pos: XY },
    MouseMove { button: Option<MouseButton>, pos: XY },
    /// The window was resized.
    Resized,
    /// The display asks to be redrawn.
    Redraw,
    /// The window or terminal was closed.
    Closed,
    /// An input the backend could not interpret, with its description.
    Unknown(String),
    /// An input-level error, with its message.
    Error(String),
}

/// Which modifier a key stands for, if any.
pub open spec fn modifier_of(k: Key) -> Option<Modifier> {
    match k {
        Key::LeftShift | Key::RightShift => Some(Modifier::Shift),
        Key::LeftCtrl | Key::RightCtrl => Some(Modifier::Ctrl),
        Key::LeftAlt | Key::RightAlt => Some(Modifier::Alt),
        _ => None,
    }
}

/// The three modifiers a [`ModState`] tracks.
#[derive(Clone, Copy, PartialEq, Eq, Structural, Debug)]
pub enum Modifier {
    Shift,
    Ctrl,
    Alt,
}

/// The modifier keys currently held down.
#[derive(Clone, Copy, PartialEq, Eq, Structural, Debug)]
pub struct ModState {
    pub shift: bool,
    pub ctrl: bool,
    pub alt: bool,
}

/// The state after one action has been applied.
pub open spec fn apply_modifier(s: ModState, a: Action) -> ModState {
    match a {
        Action::KeyPress { key } => match modifier_of(key) {
            Some(Modifier::Shift) => ModState { shift: true, ..s },
            Some(Modifier::Ctrl) => ModState { ctrl: true, ..s },
            Some(Modifier::Alt) => ModState { alt: true, ..s },
            None => s,
        },
        Action::KeyRelease { key } => match modifier_of(key) {
            Some(Modifier::Shift) => ModState { shift: false, ..s },
            Some(Modifier::Ctrl) => ModState { ctrl: false, ..s },
            Some(Modifier::Alt) => ModState { alt: false, ..s },
            None => s,
        },
        _ => s,
    }
}

/// Whether the action is a press or release of a modifier key, and so is
/// consumed by the modifier tracking alone.
pub open spec fn is_modifier_action(a: Action) -> bool {
    match a {
        Action::KeyPress { key } | Action::KeyRelease { key } => modifier_of(key) is Some,
        _ => false,
    }
}

impl Default for ModState {
    /// No modifier held.
    fn default() -> (s: ModState)
        ensures
            s == (ModState { shift: false, ctrl: false, alt: false }),
    {
        ModState { shift: false, ctrl: false, alt: false }
    }
}

impl ModState {
    /// Track one action. Returns whether the action was a modifier press or
    /// release, in which case it is consumed here and means nothing else.
    pub fn action(&mut self, a: &Action) -> (consumed: bool)
        ensures
            consumed == is_modifier_action(*a),
            *final(self) == apply_modifier(*old(self), *a),
    {
        match a {
            Action::KeyPress { key } => match key {
                Key::LeftShift | Key::RightShift => {
                    self.shift = true;
                    true
                },
                Key::LeftCtrl | Key::RightCtrl => {
                    self.ctrl = true;
                    true
                },
                Key::LeftAlt | Key::RightAlt => {
                    self.alt = true;
                    true
                },
                _ => false,
            },
            Action::KeyRelease { key } => match key {
                Key::LeftShift | Key::RightShift => {
                    self.shift = false;
                    true
                },
                Key::LeftCtrl | Key::RightCtrl => {
                    self.ctrl = false;
                    true
                },
                Key::LeftAlt | Key::RightAlt => {
                    self.alt = false;
                    true
                },
                _ => false,
            },
            _ => false,
        }
    }

    /// Whether a hotkey chord is being held: Ctrl or Alt, the modifiers that
    /// turn ordinary keys into commands.
    pub fn hotkeying(&self) -> (r: bool)
        ensures
            r == (self.ctrl || self.alt),
    {
        self.ctrl || self.alt
    }
}

} // verus!
