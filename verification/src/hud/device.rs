//! Input devices of the HUD.
use vstd::prelude::*;

use crate::keys::KeyCode;

verus! {

/// An input device, by its identifier.
#[derive(Debug)]
pub struct Device(pub u64);

/// Tracks the input devices.
#[derive(Default, Debug)]
pub struct DeviceManager {}

/// A keyboard.
#[derive(Debug)]
pub struct Keyboard {}

/// A combination of modifiers and keys.
#[derive(Debug)]
pub struct KeyCombo {
    pub alt: bool,
    pub ctrl: bool,
    pub shift: bool,
    pub keys: Vec<KeyCode>,
}

} // verus!
