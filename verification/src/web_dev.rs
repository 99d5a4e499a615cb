//! The web runtime's development server.
use vstd::prelude::*;

verus! {

/// Errors of the development server.
#[derive(Debug)]
pub enum WebDevError {
    /// Building the WebAssembly package failed.
    BuildFailed,
}

} // verus!
