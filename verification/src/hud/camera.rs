//! The HUD's camera: the point it looks at.
use vstd::prelude::*;

use bevy::math::Vec3;

verus! {

/// The point the camera orbits around.
#[derive(Default, Debug, Clone, Copy)]
pub struct Focus {
    pub center: Vec3,
}

impl Focus {
    /// A focus on the given point.
    pub fn new(center: Vec3) -> (f: Self)
        ensures
            f.center == center,
    {
        Focus { center }
    }
}

} // verus!
