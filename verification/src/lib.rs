//! Verified core of a physically-based renderer: the integer-valued logic
//! that organizes Monte Carlo light transport — sample-memory layout,
//! image tiling and pixel traversal, scattering-type flags, and the
//! bookkeeping the integrators do before rendering begins.

pub mod directlighting;
pub mod film;
pub mod light;
pub mod path;
pub mod reflection;
pub mod rng;
pub mod sample;
pub mod sampler;
pub mod texture;
pub mod whitted;
