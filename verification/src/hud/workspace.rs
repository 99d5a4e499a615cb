//! The HUD's workspace: its light.
use vstd::prelude::*;

use bevy::color::Color;
use bevy::math::Vec3;

use crate::hud::camera::Focus;

verus! {

/// The directional light of the workspace, as far as the HUD sets it: its
/// color. Everything else keeps Bevy's defaults.
#[derive(Debug, Clone, Copy)]
pub struct DirectionalLight {
    pub color: Color,
}

/// The workspace's light and the point it shines at.
#[derive(Debug, Clone, Copy)]
pub struct WorkspaceLightBundle {
    pub light: DirectionalLight,
    pub focus: Focus,
}

impl WorkspaceLightBundle {
    /// A light of the given color that shines at `focus`. The position is
    /// not used.
    pub fn new(color: Color, position: Vec3, focus: Vec3) -> (b: Self)
        ensures
            b.light.color == color,
            b.focus.center == focus,
    {
        WorkspaceLightBundle { light: DirectionalLight { color }, focus: Focus::new(focus) }
    }
}

} // verus!
