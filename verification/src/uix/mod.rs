//! The UIx markup: elements written in a JSX-like syntax inside a Rust
//! macro, parsed from token trees and turned into the calls that build them
//! on a scaffold.
pub mod token;
pub mod syntax;
pub mod element;
pub mod markup;
pub mod emit;
pub mod expand;
pub mod styles;
pub mod derive;
pub mod laws;
