//! Slate: structures for building and updating user interfaces, and the
//! runtimes (Bevy, terminal) and applications built on them.
pub mod outside;
pub mod terminal;
pub mod bevy_slate;
pub mod keys;
pub mod surface_app;
pub mod hud;
pub mod web_dev;
pub mod uix;
pub mod chalk;
