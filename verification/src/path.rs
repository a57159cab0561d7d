//! The path integrator's pre-render bookkeeping and its per-vertex
//! decisions: when emitted radiance is added, when stratified samples are
//! still available, when Russian roulette starts, and when the bounce
//! budget ends the path.

use crate::light::LightSampleOffsets;
use crate::reflection::BSDFSampleOffsets;
use crate::sample::{SampleLayout, SampleOffset1d};
use vstd::prelude::*;

verus! {

/// Bounces that use stratified samples from the sample buffer; beyond
/// this depth the path falls back to pure-random values.
pub const SAMPLE_DEPTH: usize = 3;

/// Unidirectional path tracing: one light sample and one scattered
/// direction per path vertex, up to `max_depth` bounces.
pub struct PathIntegrator {
    pub max_depth: usize,
    pub light_sample_offsets: Vec<LightSampleOffsets>,
    pub light_num_offset: Vec<SampleOffset1d>,
    pub bsdf_sample_offsets: Vec<BSDFSampleOffsets>,
    pub path_sample_offsets: Vec<BSDFSampleOffsets>,
}

/// Emitted radiance is added at a path vertex only on the camera ray's
/// first hit or right after a specular bounce: everywhere else the
/// previous vertex's direct-light estimate has already counted it, and
/// adding it again would double-count the light.
pub fn adds_emitted(bounces: usize, specular_bounce: bool) -> (r: bool)
    ensures
        r == (bounces == 0 || specular_bounce),
{
    bounces == 0 || specular_bounce
}

/// Whether bounce number `bounces` still has stratified samples
/// registered in the sample buffer.
pub fn uses_stratified(bounces: usize) -> (r: bool)
    ensures
        r == (bounces < SAMPLE_DEPTH),
{
    bounces < SAMPLE_DEPTH
}

/// Whether Russian roulette may terminate the path after this bounce:
/// only once the path is more than three bounces deep.
pub fn roulette_active(bounces: usize) -> (r: bool)
    ensures
        r == (bounces > 3),
{
    bounces > 3
}

impl PathIntegrator {
    pub fn new(max_depth: usize) -> (r: PathIntegrator)
        ensures
            r.max_depth == max_depth,
            r.light_sample_offsets@.len() == 0,
            r.light_num_offset@.len() == 0,
            r.bsdf_sample_offsets@.len() == 0,
            r.path_sample_offsets@.len() == 0,
    {
        PathIntegrator {
            max_depth,
            light_sample_offsets: Vec::new(),
            light_num_offset: Vec::new(),
            bsdf_sample_offsets: Vec::new(),
            path_sample_offsets: Vec::new(),
        }
    }

    /// Whether the bounce budget ends the path at this vertex.
    pub fn reached_max_depth(&self, bounces: usize) -> (r: bool)
        ensures
            r == (bounces == self.max_depth),
    {
        bounces == self.max_depth
    }

    /// Register this integrator's sample groups with the layout: for each
    /// of the first `SAMPLE_DEPTH` bounces, a one-sample light group, a
    /// light-selection value, a one-sample BSDF group for direct
    /// lighting, and a one-sample BSDF group for the new path direction.
    pub fn request_samples(&mut self, sample: &mut SampleLayout)
        requires
            old(self).light_sample_offsets@.len() == 0,
            old(self).light_num_offset@.len() == 0,
            old(self).bsdf_sample_offsets@.len() == 0,
            old(self).path_sample_offsets@.len() == 0,
        ensures
            final(self).max_depth == old(self).max_depth,
            final(sample).ptrs_1d() == old(sample).ptrs_1d(),
            final(sample).ptrs_2d() == old(sample).ptrs_2d(),
            final(sample).mem_size_spec() == old(sample).mem_size_spec(),
            final(sample).counts_1d().take(old(sample).counts_1d().len() as int) =~= old(
                sample,
            ).counts_1d(),
            final(sample).counts_2d().take(old(sample).counts_2d().len() as int) =~= old(
                sample,
            ).counts_2d(),
            final(self).light_sample_offsets@.len() == SAMPLE_DEPTH,
            final(self).light_num_offset@.len() == SAMPLE_DEPTH,
            final(self).bsdf_sample_offsets@.len() == SAMPLE_DEPTH,
            final(self).path_sample_offsets@.len() == SAMPLE_DEPTH,
            final(sample).counts_1d().len() == old(sample).counts_1d().len() + 4 * SAMPLE_DEPTH,
            final(sample).counts_2d().len() == old(sample).counts_2d().len() + 3 * SAMPLE_DEPTH,
            ({
                let len1 = old(sample).counts_1d().len() as int;
                let len2 = old(sample).counts_2d().len() as int;
                &&& forall|b: int|
                    #![trigger final(self).light_sample_offsets@[b]]
                    0 <= b < SAMPLE_DEPTH ==> final(self).light_sample_offsets@[b].n_samples == 1
                        && final(self).light_sample_offsets@[b].component_offset.0 == len1 + 4 * b
                        && final(self).light_sample_offsets@[b].pos_offset.0 == len2 + 3 * b
                &&& forall|b: int|
                    #![trigger final(self).light_num_offset@[b]]
                    0 <= b < SAMPLE_DEPTH ==> final(self).light_num_offset@[b].0 == len1 + 4 * b
                        + 1
                &&& forall|b: int|
                    #![trigger final(self).bsdf_sample_offsets@[b]]
                    0 <= b < SAMPLE_DEPTH ==> final(self).bsdf_sample_offsets@[b].n_samples == 1
                        && final(self).bsdf_sample_offsets@[b].component_offset.0 == len1 + 4 * b
                        + 2 && final(self).bsdf_sample_offsets@[b].dir_offset.0 == len2 + 3 * b + 1
                &&& forall|b: int|
                    #![trigger final(self).path_sample_offsets@[b]]
                    0 <= b < SAMPLE_DEPTH ==> final(self).path_sample_offsets@[b].n_samples == 1
                        && final(self).path_sample_offsets@[b].component_offset.0 == len1 + 4 * b
                        + 3 && final(self).path_sample_offsets@[b].dir_offset.0 == len2 + 3 * b + 2
                &&& forall|j: int|
                    #![trigger final(sample).counts_1d()[j]]
                    len1 <= j < len1 + 4 * SAMPLE_DEPTH ==> final(sample).counts_1d()[j] == 1
                &&& forall|j: int|
                    #![trigger final(sample).counts_2d()[j]]
                    len2 <= j < len2 + 3 * SAMPLE_DEPTH ==> final(sample).counts_2d()[j] == 1
            }),
    {
        let ghost len1 = sample.counts_1d().len() as int;
        let ghost len2 = sample.counts_2d().len() as int;
        let ghost orig_sample = *sample;
        let mut i: usize = 0;
        while i < SAMPLE_DEPTH
            invariant
                i <= SAMPLE_DEPTH,
                self.max_depth == old(self).max_depth,
                len1 == orig_sample.counts_1d().len(),
                len2 == orig_sample.counts_2d().len(),
                sample.ptrs_1d() == orig_sample.ptrs_1d(),
                sample.ptrs_2d() == orig_sample.ptrs_2d(),
                sample.mem_size_spec() == orig_sample.mem_size_spec(),
                sample.counts_1d().take(len1) =~= orig_sample.counts_1d(),
                sample.counts_2d().take(len2) =~= orig_sample.counts_2d(),
                sample.counts_1d().len() == len1 + 4 * i,
                sample.counts_2d().len() == len2 + 3 * i,
                self.light_sample_offsets@.len() == i,
                self.light_num_offset@.len() == i,
                self.bsdf_sample_offsets@.len() == i,
                self.path_sample_offsets@.len() == i,
                forall|b: int|
                    #![trigger self.light_sample_offsets@[b]]
                    0 <= b < i ==> self.light_sample_offsets@[b].n_samples == 1
                        && self.light_sample_offsets@[b].component_offset.0 == len1 + 4 * b
                        && self.light_sample_offsets@[b].pos_offset.0 == len2 + 3 * b,
                forall|b: int|
                    #![trigger self.light_num_offset@[b]]
                    0 <= b < i ==> self.light_num_offset@[b].0 == len1 + 4 * b + 1,
                forall|b: int|
                    #![trigger self.bsdf_sample_offsets@[b]]
                    0 <= b < i ==> self.bsdf_sample_offsets@[b].n_samples == 1
                        && self.bsdf_sample_offsets@[b].component_offset.0 == len1 + 4 * b + 2
                        && self.bsdf_sample_offsets@[b].dir_offset.0 == len2 + 3 * b + 1,
                forall|b: int|
                    #![trigger self.path_sample_offsets@[b]]
                    0 <= b < i ==> self.path_sample_offsets@[b].n_samples == 1
                        && self.path_sample_offsets@[b].component_offset.0 == len1 + 4 * b + 3
                        && self.path_sample_offsets@[b].dir_offset.0 == len2 + 3 * b + 2,
                forall|j: int|
                    #![trigger sample.counts_1d()[j]]
                    len1 <= j < len1 + 4 * i ==> sample.counts_1d()[j] == 1,
                forall|j: int|
                    #![trigger sample.counts_2d()[j]]
                    len2 <= j < len2 + 3 * i ==> sample.counts_2d()[j] == 1,
            decreases SAMPLE_DEPTH - i,
        {
            self.light_sample_offsets.push(LightSampleOffsets::new(1, sample));
            self.light_num_offset.push(sample.add_1d(1));
            self.bsdf_sample_offsets.push(BSDFSampleOffsets::new(1, sample));
            self.path_sample_offsets.push(BSDFSampleOffsets::new(1, sample));
            i = i + 1;
        }
    }
}

impl Default for PathIntegrator {
    /// A path budget of five bounces.
    fn default() -> (r: Self)
        ensures
            r.max_depth == 5,
            r.light_sample_offsets@.len() == 0,
            r.light_num_offset@.len() == 0,
            r.bsdf_sample_offsets@.len() == 0,
            r.path_sample_offsets@.len() == 0,
    {
        PathIntegrator::new(5)
    }
}

} // verus!
