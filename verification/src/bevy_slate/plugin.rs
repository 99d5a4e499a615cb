//! The plugin that sets up an application for the Bevy runtime.
use vstd::prelude::*;

use crate::bevy_slate::config::BevySlateConfig;

verus! {

/// Sets up windows, the reticle, web views and the surface provider.
#[derive(Default)]
pub struct BevySlatePlugin {
    pub config: BevySlateConfig,
}

impl BevySlatePlugin {
    /// A plugin with the given configuration.
    pub fn new(config: BevySlateConfig) -> (p: Self)
        ensures
            p.config == config,
    {
        BevySlatePlugin { config }
    }
}

} // verus!
