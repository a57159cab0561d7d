//! The Whitted integrator's recursion policy: emitted light plus
//! per-light direct contribution at every hit, with recursive specular
//! bounces while the depth bound allows.

use vstd::prelude::*;

verus! {

/// Whitted-style ray tracing: direct lighting from every light at every
/// hit, plus mirror reflection and refraction followed recursively.
pub struct WhittedIntegrator {
    pub max_depth: u32,
}

impl WhittedIntegrator {
    pub fn new(max_depth: u32) -> (r: WhittedIntegrator)
        ensures
            r.max_depth == max_depth,
    {
        WhittedIntegrator { max_depth }
    }

    /// Whether a ray that has already bounced `depth` times may still
    /// spawn specular reflection and transmission rays.
    pub fn traces_specular(&self, depth: u32) -> (r: bool)
        ensures
            r == (depth + 1 < self.max_depth),
    {
        (depth as u64) + 1 < (self.max_depth as u64)
    }
}

} // verus!
