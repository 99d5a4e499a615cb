//! The HUD application.
pub mod artist;
pub mod camera;
pub mod device;
pub mod doodle;
pub mod gamepad;
pub mod hud;
pub mod input;
pub mod script;
pub mod tool;
pub mod window;
pub mod workspace;
