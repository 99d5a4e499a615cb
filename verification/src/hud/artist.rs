//! Artists: users that draw on the HUD.
use vstd::prelude::*;

use crate::hud::tool::{Location, Tool};

verus! {

/// A user that draws.
#[derive(Default)]
pub struct Artist {}

/// An artist, the tool it draws with, and where the tool is.
#[derive(Default)]
pub struct ArtistBundle {
    pub artist: Artist,
    pub tool: Tool,
    pub location: Location,
}

} // verus!
