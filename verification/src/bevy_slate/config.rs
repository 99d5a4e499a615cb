//! The configuration of the Bevy runtime plugin.
use vstd::prelude::*;

use bevy::color::Color as BevyColor;

verus! {

/// How the Bevy runtime plugin sets up the application.
pub struct BevySlateConfig {
    /// Whether Bevy's default plugins are added.
    pub bevy_defaults: bool,
    /// The log filter, as in `warn,slate=info`.
    pub log_filter: String,
    /// Where assets are found.
    pub asset_dir: String,
    /// The color windows are cleared with.
    pub clear_color: BevyColor,
}

/// `bevy::color::Color::hsla` with every component at zero: a fully
/// transparent color. Nothing is stated of the color.
#[verifier::external_body]
fn transparent_hsla() -> BevyColor {
    BevyColor::hsla(Default::default(), Default::default(), Default::default(), Default::default())
}

impl Default for BevySlateConfig {
    /// Bevy's default plugins on, an empty log filter and asset directory,
    /// and a transparent clear color.
    fn default() -> (c: Self)
        ensures
            c.bevy_defaults,
            c.log_filter@ == Seq::<char>::empty(),
            c.asset_dir@ == Seq::<char>::empty(),
    {
        BevySlateConfig {
            bevy_defaults: true,
            log_filter: String::new(),
            asset_dir: String::new(),
            clear_color: transparent_hsla(),
        }
    }
}

impl BevySlateConfig {
    /// The same configuration, with Bevy's default plugins on or off.
    pub fn with_bevy_defaults(self, bevy_defaults: bool) -> (c: Self)
        ensures
            c == (BevySlateConfig { bevy_defaults, ..self }),
    {
        let mut c = self;
        c.bevy_defaults = bevy_defaults;
        c
    }

    /// The same configuration, with the given log filter.
    pub fn with_log_filter(self, log_filter: String) -> (c: Self)
        ensures
            c == (BevySlateConfig { log_filter, ..self }),
    {
        let mut c = self;
        c.log_filter = log_filter;
        c
    }

    /// The same configuration, with the given asset directory.
    pub fn with_asset_dir(self, asset_dir: String) -> (c: Self)
        ensures
            c == (BevySlateConfig { asset_dir, ..self }),
    {
        let mut c = self;
        c.asset_dir = asset_dir;
        c
    }

    /// The same configuration, with the given clear color.
    pub fn with_clear_color(self, color: BevyColor) -> (c: Self)
        ensures
            c == (BevySlateConfig { clear_color: color, ..self }),
    {
        let mut c = self;
        c.clear_color = color;
        c
    }
}

} // verus!
