//! The peer relay: connects surfaces of several peers.
use vstd::prelude::*;

verus! {

/// Relays surface updates between peers.
pub struct PeerRelayPlugin;

impl PeerRelayPlugin {
    /// The plugin.
    pub fn _new() -> (p: Self)
        ensures
            p == PeerRelayPlugin,
    {
        PeerRelayPlugin
    }
}

/// The known peers.
pub struct Peers {}

impl Peers {
    /// No peers.
    pub fn new() -> (p: Self)
        ensures
            p == (Peers {}),
    {
        Peers {}
    }
}

} // verus!
