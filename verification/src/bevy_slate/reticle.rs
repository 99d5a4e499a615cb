//! The reticle: the shape that follows the user's cursor.
use vstd::prelude::*;

use bevy::math::Vec2;
use bevy::math::Vec3;

verus! {

/// Spawns the reticle and keeps it on the cursor.
pub struct ReticlePlugin;

impl ReticlePlugin {
    /// The plugin.
    pub fn new() -> (p: Self)
        ensures
            p == ReticlePlugin,
    {
        ReticlePlugin
    }
}

impl Default for ReticlePlugin {
    /// The plugin.
    fn default() -> (p: Self)
        ensures
            p == ReticlePlugin,
    {
        ReticlePlugin
    }
}

/// How the reticle is drawn.
#[derive(Default, Debug, Clone, Copy, PartialEq, Eq, Structural)]
pub enum ReticleKind {
    /// With gizmos.
    #[default]
    Gizmo,
}

/// The shape of the reticle.
#[derive(Default, Debug, Clone, Copy, PartialEq, Eq, Structural)]
pub enum ReticleShape {
    #[default]
    Circle,
    Square,
    Triangle,
}

/// Tracks the position of the user's cursor in screen and 2D space.
#[derive(Default, Debug, Clone, Copy)]
pub struct ReticlePosition {
    /// The screen-space position of the reticle, corrected for window
    /// placement and camera position.
    pub screen: Vec2,
    /// The 2D space position of the reticle.
    pub space_2d: Vec3,
}

impl ReticlePosition {
    /// A reticle at the given positions.
    pub fn new(screen: Vec2, space_2d: Vec3) -> (p: Self)
        ensures
            p.screen == screen,
            p.space_2d == space_2d,
    {
        ReticlePosition { screen, space_2d }
    }

    /// Moves the reticle to the next screen position; its 2D space position
    /// stays.
    pub fn move_to(&mut self, next_pos: Vec2)
        ensures
            final(self).screen == next_pos,
            final(self).space_2d == old(self).space_2d,
    {
        self.screen = next_pos;
    }
}

} // verus!
