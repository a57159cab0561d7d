//! Light-sampling bookkeeping: where the sample values a light needs per
//! pixel sample live in the sample buffer.

use crate::sample::{SampleLayout, SampleOffset1d, SampleOffset2d};
use vstd::prelude::*;

verus! {

/// Where a group of light sample values lives in the sample buffer: one
/// 1D group for the shape-selection fractions and one 2D group for the
/// position fractions, both of `n_samples` values per pixel sample.
pub struct LightSampleOffsets {
    pub n_samples: u32,
    pub component_offset: SampleOffset1d,
    pub pos_offset: SampleOffset2d,
}

impl LightSampleOffsets {
    /// Register the two groups with the layout.
    pub fn new(count: u32, sample: &mut SampleLayout) -> (r: LightSampleOffsets)
        ensures
            r.n_samples == count,
            r.component_offset.0 == old(sample).counts_1d().len(),
            r.pos_offset.0 == old(sample).counts_2d().len(),
            final(sample).counts_1d() =~= old(sample).counts_1d().push(count as usize),
            final(sample).counts_2d() =~= old(sample).counts_2d().push(count as usize),
            final(sample).ptrs_1d() == old(sample).ptrs_1d(),
            final(sample).ptrs_2d() == old(sample).ptrs_2d(),
            final(sample).mem_size_spec() == old(sample).mem_size_spec(),
    {
        let component_offset = sample.add_1d(count);
        let pos_offset = sample.add_2d(count);
        LightSampleOffsets { n_samples: count, component_offset, pos_offset }
    }
}

} // verus!
