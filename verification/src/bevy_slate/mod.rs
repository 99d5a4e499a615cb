//! The Bevy runtime: plugins, text inputs, windows, the reticle, timers and
//! the surface provider.
pub mod input;
pub mod provider;
pub mod window;
pub mod config;
pub mod plugin;
pub mod reticle;
pub mod time;
pub mod webview;
pub mod terminal;
