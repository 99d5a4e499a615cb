//! Doodles: shapes that artists draw.
use vstd::prelude::*;

verus! {

/// A shape that a doodle can take.
pub trait DoodleShape: Send + Sync + 'static {}

} // verus!
