//! The terminal runtime: element blocks and the terminal surface.
pub mod element;
pub mod surface;
