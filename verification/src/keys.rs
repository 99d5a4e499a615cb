//! Keyboard keys and mouse buttons, as far as the library's logic reads
//! them.
use vstd::prelude::*;

verus! {

/// The physical keys that key bindings name; every other key is `Other`.
#[derive(Copy, Clone, Debug, PartialEq, Eq, Structural)]
pub enum KeyCode {
    KeyQ,
    PageUp,
    PageDown,
    Digit0,
    Numpad0,
    Minus,
    NumpadSubtract,
    Equal,
    NumpadAdd,
    AltLeft,
    AltRight,
    ControlLeft,
    ControlRight,
    ShiftLeft,
    ShiftRight,
    F10,
    F11,
    F12,
    Other,
}

/// Whether a key or button went down or up.
#[derive(Copy, Clone, Debug, PartialEq, Eq, Structural)]
pub enum ButtonState {
    Pressed,
    Released,
}

/// A keyboard event: which key, and whether it went down or up.
#[derive(Copy, Clone, Debug, PartialEq, Eq, Structural)]
pub struct KeyboardInput {
    pub key_code: KeyCode,
    pub state: ButtonState,
}

} // verus!
