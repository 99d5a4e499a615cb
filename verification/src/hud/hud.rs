//! The HUD application's plugin.
use vstd::prelude::*;

use core::time::Duration;

use bevy::color::Color;

use crate::bevy_slate::time::duration_nanos;

verus! {

/// `core::time::Duration::from_secs`: the duration of `secs` whole
/// seconds, that is `secs * 1_000_000_000` nanoseconds.
#[verifier::external_body]
fn duration_secs(secs: u64) -> (d: Duration)
    ensures
        duration_nanos(d) == secs * 1_000_000_000,
{
    Duration::from_secs(secs)
}

/// `bevy::color::Color::NONE`, the fully transparent color. Nothing is
/// stated of it.
#[verifier::external_body]
fn no_color() -> Color {
    Color::NONE
}

/// The HUD: an overlay over the user's screen.
#[derive(Debug)]
pub struct Hud {
    clear_color: Color,
    sync_delay: Duration,
}

impl Hud {
    /// The color the HUD clears its windows with.
    pub closed spec fn clear_color_of(&self) -> Color {
        self.clear_color
    }

    /// How often the HUD syncs its build status.
    pub closed spec fn sync_delay_of(&self) -> Duration {
        self.sync_delay
    }

    /// A HUD that clears its windows with `Color::NONE` (transparent) and
    /// syncs its build status every `sync_delay` seconds.
    pub fn new(sync_delay: u64) -> (h: Self)
        ensures
            duration_nanos(h.sync_delay_of()) == sync_delay * 1_000_000_000,
    {
        Hud { clear_color: no_color(), sync_delay: duration_secs(sync_delay) }
    }

    /// The color the HUD clears its windows with.
    pub fn clear_color(&self) -> (c: Color)
        ensures
            c == self.clear_color_of(),
    {
        self.clear_color
    }

    /// How often the HUD syncs its build status.
    pub fn sync_delay(&self) -> (d: Duration)
        ensures
            d == self.sync_delay_of(),
    {
        self.sync_delay
    }
}

} // verus!
