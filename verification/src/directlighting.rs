//! The direct-lighting integrator's pre-render bookkeeping: which sample
//! groups it asks of the sampler, and which scattering decisions its
//! per-ray evaluation makes.

use crate::light::LightSampleOffsets;
use crate::reflection::BSDFSampleOffsets;
use crate::sample::{SampleLayout, SampleOffset1d};
use crate::sampler::RandomSampler;
use vstd::prelude::*;

verus! {

/// How direct lighting is estimated at a shading point: draw stratified
/// samples from every light and sum the estimates, or pick one light
/// uniformly (by count, not by power) and scale that single estimate by
/// the number of lights.
#[derive(PartialEq, Eq, Structural, Clone, Copy)]
pub enum LightStrategy {
    SampleAllUniform,
    SampleOneUniform,
}

/// Estimates only direct illumination, plus specular bounces up to a
/// depth bound.
pub struct DirectLightingIntegrator {
    pub strategy: LightStrategy,
    pub max_depth: u32,
    pub light_sample_offsets: Vec<LightSampleOffsets>,
    pub bsdf_sample_offsets: Vec<BSDFSampleOffsets>,
    pub light_num_offset: Option<SampleOffset1d>,
}

impl DirectLightingIntegrator {
    pub fn new(strategy: LightStrategy, max_depth: u32) -> (r: DirectLightingIntegrator)
        ensures
            r.strategy == strategy,
            r.max_depth == max_depth,
            r.light_sample_offsets@.len() == 0,
            r.bsdf_sample_offsets@.len() == 0,
            r.light_num_offset is None,
    {
        DirectLightingIntegrator {
            strategy,
            max_depth,
            light_sample_offsets: Vec::new(),
            bsdf_sample_offsets: Vec::new(),
            light_num_offset: None,
        }
    }

    /// Whether a ray that has already bounced `depth` times may still
    /// spawn specular reflection and transmission rays.
    pub fn traces_specular(&self, depth: u32) -> (r: bool)
        ensures
            r == (depth + 1 < self.max_depth),
    {
        (depth as u64) + 1 < (self.max_depth as u64)
    }

    /// Register this integrator's sample groups with the layout, one
    /// light-sample group and one BSDF-sample group per light (each of
    /// that light's sample count, rounded by the sampler — which changes
    /// nothing here), or a single pair of one-sample groups plus a
    /// light-selection value when only one light is sampled per point.
    pub fn request_samples(
        &mut self,
        sampler: Option<&RandomSampler>,
        sample: &mut SampleLayout,
        light_counts: &Vec<u32>,
    )
        requires
            old(self).light_sample_offsets@.len() == 0,
            old(self).bsdf_sample_offsets@.len() == 0,
        ensures
            final(self).strategy == old(self).strategy,
            final(self).max_depth == old(self).max_depth,
            final(sample).ptrs_1d() == old(sample).ptrs_1d(),
            final(sample).ptrs_2d() == old(sample).ptrs_2d(),
            final(sample).mem_size_spec() == old(sample).mem_size_spec(),
            final(sample).counts_1d().take(old(sample).counts_1d().len() as int) =~= old(
                sample,
            ).counts_1d(),
            final(sample).counts_2d().take(old(sample).counts_2d().len() as int) =~= old(
                sample,
            ).counts_2d(),
            old(self).strategy is SampleAllUniform ==> {
                let n = light_counts@.len() as int;
                let len1 = old(sample).counts_1d().len() as int;
                let len2 = old(sample).counts_2d().len() as int;
                &&& final(self).light_sample_offsets@.len() == n
                &&& final(self).bsdf_sample_offsets@.len() == n
                &&& final(self).light_num_offset is None
                &&& final(sample).counts_1d().len() == len1 + 2 * n
                &&& final(sample).counts_2d().len() == len2 + 2 * n
                &&& forall|b: int|
                    #![trigger final(self).light_sample_offsets@[b]]
                    0 <= b < n ==> final(self).light_sample_offsets@[b].n_samples
                        == light_counts@[b] && final(self).light_sample_offsets@[b].component_offset.0
                        == len1 + 2 * b && final(self).light_sample_offsets@[b].pos_offset.0 == len2
                        + 2 * b
                &&& forall|b: int|
                    #![trigger final(self).bsdf_sample_offsets@[b]]
                    0 <= b < n ==> final(self).bsdf_sample_offsets@[b].n_samples == light_counts@[b]
                        && final(self).bsdf_sample_offsets@[b].component_offset.0 == len1 + 2 * b
                        + 1 && final(self).bsdf_sample_offsets@[b].dir_offset.0 == len2 + 2 * b + 1
                &&& forall|j: int|
                    #![trigger final(sample).counts_1d()[j]]
                    len1 <= j < len1 + 2 * n ==> final(sample).counts_1d()[j] == light_counts@[(j
                        - len1) / 2] as usize
                &&& forall|j: int|
                    #![trigger final(sample).counts_2d()[j]]
                    len2 <= j < len2 + 2 * n ==> final(sample).counts_2d()[j] == light_counts@[(j
                        - len2) / 2] as usize
            },
            old(self).strategy is SampleOneUniform ==> {
                let len1 = old(sample).counts_1d().len() as int;
                let len2 = old(sample).counts_2d().len() as int;
                &&& final(self).light_sample_offsets@.len() == 1
                &&& final(self).bsdf_sample_offsets@.len() == 1
                &&& final(self).light_sample_offsets@[0].n_samples == 1
                &&& final(self).light_sample_offsets@[0].component_offset.0 == len1
                &&& final(self).light_sample_offsets@[0].pos_offset.0 == len2
                &&& final(self).light_num_offset == Some(SampleOffset1d((len1 + 1) as usize))
                &&& final(self).bsdf_sample_offsets@[0].n_samples == 1
                &&& final(self).bsdf_sample_offsets@[0].component_offset.0 == len1 + 2
                &&& final(self).bsdf_sample_offsets@[0].dir_offset.0 == len2 + 1
                &&& final(sample).counts_1d().len() == len1 + 3
                &&& final(sample).counts_2d().len() == len2 + 2
                &&& forall|j: int|
                    #![trigger final(sample).counts_1d()[j]]
                    len1 <= j < len1 + 3 ==> final(sample).counts_1d()[j] == 1
                &&& forall|j: int|
                    #![trigger final(sample).counts_2d()[j]]
                    len2 <= j < len2 + 2 ==> final(sample).counts_2d()[j] == 1
            },
    {
        match self.strategy {
            LightStrategy::SampleAllUniform => {
                let ghost len1 = sample.counts_1d().len() as int;
                let ghost len2 = sample.counts_2d().len() as int;
                let ghost orig_sample = *sample;
                let n = light_counts.len();
                let mut i: usize = 0;
                while i < n
                    invariant
                        i <= n,
                        n == light_counts@.len(),
                        self.strategy == old(self).strategy,
                        self.max_depth == old(self).max_depth,
                        self.light_num_offset == old(self).light_num_offset,
                        len1 == orig_sample.counts_1d().len(),
                        len2 == orig_sample.counts_2d().len(),
                        sample.ptrs_1d() == orig_sample.ptrs_1d(),
                        sample.ptrs_2d() == orig_sample.ptrs_2d(),
                        sample.mem_size_spec() == orig_sample.mem_size_spec(),
                        sample.counts_1d().take(len1) =~= orig_sample.counts_1d(),
                        sample.counts_2d().take(len2) =~= orig_sample.counts_2d(),
                        sample.counts_1d().len() == len1 + 2 * i,
                        sample.counts_2d().len() == len2 + 2 * i,
                        self.light_sample_offsets@.len() == i,
                        self.bsdf_sample_offsets@.len() == i,
                        forall|b: int|
                            #![trigger self.light_sample_offsets@[b]]
                            0 <= b < i ==> self.light_sample_offsets@[b].n_samples
                                == light_counts@[b] && self.light_sample_offsets@[b].component_offset.0
                                == len1 + 2 * b && self.light_sample_offsets@[b].pos_offset.0
                                == len2 + 2 * b,
                        forall|b: int|
                            #![trigger self.bsdf_sample_offsets@[b]]
                            0 <= b < i ==> self.bsdf_sample_offsets@[b].n_samples
                                == light_counts@[b] && self.bsdf_sample_offsets@[b].component_offset.0
                                == len1 + 2 * b + 1 && self.bsdf_sample_offsets@[b].dir_offset.0
                                == len2 + 2 * b + 1,
                        forall|j: int|
                            #![trigger sample.counts_1d()[j]]
                            len1 <= j < len1 + 2 * i ==> sample.counts_1d()[j] == light_counts@[(j
                                - len1) / 2] as usize,
                        forall|j: int|
                            #![trigger sample.counts_2d()[j]]
                            len2 <= j < len2 + 2 * i ==> sample.counts_2d()[j] == light_counts@[(j
                                - len2) / 2] as usize,
                    decreases n - i,
                {
                    let mut n_samples = light_counts[i];
                    if let Some(sampler) = sampler {
                        n_samples = sampler.round_size(n_samples);
                    }
                    self.light_sample_offsets.push(LightSampleOffsets::new(n_samples, sample));
                    self.bsdf_sample_offsets.push(BSDFSampleOffsets::new(n_samples, sample));
                    i = i + 1;
                }
                self.light_num_offset = None;
            },
            LightStrategy::SampleOneUniform => {
                self.light_sample_offsets.push(LightSampleOffsets::new(1, sample));
                self.light_num_offset = Some(sample.add_1d(1));
                self.bsdf_sample_offsets.push(BSDFSampleOffsets::new(1, sample));
            },
        }
    }
}

impl Default for DirectLightingIntegrator {
    /// Sample every light, with specular bounces up to depth five.
    fn default() -> (r: Self)
        ensures
            r.strategy == LightStrategy::SampleAllUniform,
            r.max_depth == 5,
            r.light_sample_offsets@.len() == 0,
            r.bsdf_sample_offsets@.len() == 0,
            r.light_num_offset is None,
    {
        DirectLightingIntegrator::new(LightStrategy::SampleAllUniform, 5)
    }
}

} // verus!
