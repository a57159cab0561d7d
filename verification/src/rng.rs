//! The random-number generator handle threaded through every sampling
//! call, so that each rendering worker owns its generator and no call
//! chain depends on process-wide state.

use vstd::prelude::*;

verus! {

/// A per-worker random-number generator handle.
pub struct RNG {}

impl RNG {
    pub fn new() -> RNG {
        RNG {  }
    }

    /// A generator for the worker that owns the seed's tile.
    pub fn from_seed(_seed: u32) -> RNG {
        RNG::new()
    }
}

} // verus!
