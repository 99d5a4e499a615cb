//! The surface application.
pub mod surface;
pub mod relay;
