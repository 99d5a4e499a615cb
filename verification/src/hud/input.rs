//! The HUD's input plugin and the input events it registers.
use vstd::prelude::*;

use bevy::math::Vec3;

verus! {

/// Registers the input events.
#[derive(Debug)]
pub struct InputPlugin {}

impl InputPlugin {
    /// The plugin.
    pub fn new() -> (p: Self)
        ensures
            p == (InputPlugin {}),
    {
        InputPlugin {}
    }
}

/// An input started at a position.
#[derive(Default, Debug, Clone, Copy)]
pub struct InputStartEvent {
    pub position: Vec3,
}

/// An input moved to a position.
#[derive(Default, Debug, Clone, Copy)]
pub struct InputUpdateEvent {
    pub position: Vec3,
}

/// An input ended at a position.
#[derive(Default, Debug, Clone, Copy)]
pub struct InputEndEvent {
    pub position: Vec3,
}

} // verus!
