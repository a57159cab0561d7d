//! Texture building blocks whose behaviour does not depend on the hit
//! point: the constant texture, and the checkerboard's anti-aliasing
//! policy.

use vstd::prelude::*;

verus! {

/// How a checkerboard texture fights aliasing: point-sample the check at
/// the hit point, or box-filter the two checks in closed form over the
/// texture-space footprint.
#[derive(PartialEq, Eq, Structural, Clone, Copy)]
pub enum AAMethod {
    NoFilter,
    ClosedForm,
}

/// A texture that evaluates to the same value everywhere.
pub struct ConstantTexture<T> {
    value: T,
}

impl<T> ConstantTexture<T> {
    /// The value this texture evaluates to.
    pub closed spec fn value_spec(self) -> T {
        self.value
    }

    pub fn new(value: T) -> (r: ConstantTexture<T>)
        ensures
            r.value_spec() == value,
    {
        ConstantTexture { value }
    }
}

impl<T: Copy> ConstantTexture<T> {
    /// The constant: evaluation ignores where the texture is sampled.
    pub fn evaluate(&self) -> (r: T)
        ensures
            r == self.value_spec(),
    {
        self.value
    }
}

} // verus!
