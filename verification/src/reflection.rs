//! Scattering-type flags and the bookkeeping of a BSDF's scattering
//! terms: each term of a BSDF carries a bitmask of
//! {reflection, transmission} x {diffuse, glossy, specular}, and both
//! evaluation and sampling pick terms by masking those bits.

use crate::sample::{SampleLayout, SampleOffset1d, SampleOffset2d};
use vstd::prelude::*;

verus! {

/// A scattering term's type: a bitmask over the flag constants below.
pub type BxDFType = u8;

pub const BSDF_REFLECTION: u8 = 0x01;

pub const BSDF_TRANSMISSION: u8 = 0x02;

pub const BSDF_DIFFUSE: u8 = 0x04;

pub const BSDF_GLOSSY: u8 = 0x08;

pub const BSDF_SPECULAR: u8 = 0x10;

pub const BSDF_ALL_TYPES: u8 = BSDF_DIFFUSE | BSDF_GLOSSY | BSDF_SPECULAR;

pub const BSDF_ALL_REFLECTION: u8 = BSDF_REFLECTION | BSDF_ALL_TYPES;

pub const BSDF_ALL_TRANSMISSION: u8 = BSDF_TRANSMISSION | BSDF_ALL_TYPES;

pub const BSDF_ALL: u8 = BSDF_ALL_REFLECTION | BSDF_ALL_TRANSMISSION;

/// Every bit of `t` is set in `flags`: the term is admitted by the mask.
pub open spec fn has_flags(t: u8, flags: u8) -> bool {
    t & flags == t
}

/// Whether a term of type `t` is admitted by the mask `flags`.
pub fn matches_flags(t: u8, flags: u8) -> (r: bool)
    ensures
        r == has_flags(t, flags),
{
    t & flags == t
}

/// The mask used once the geometric normal has sorted the two directions:
/// when they lie in the same hemisphere only reflection can contribute,
/// otherwise only transmission can. The excluded kind is dropped from
/// `flags` so that no term of it is evaluated — this is the guard against
/// light leaking through shading-normal-perturbed surfaces.
pub fn hemisphere_flags(flags: u8, same_hemisphere: bool) -> (r: u8)
    ensures
        same_hemisphere ==> r == flags & !BSDF_TRANSMISSION,
        !same_hemisphere ==> r == flags & !BSDF_REFLECTION,
{
    if same_hemisphere {
        flags & !BSDF_TRANSMISSION
    } else {
        flags & !BSDF_REFLECTION
    }
}

/// Whether the term's type has its specular bit set. Specular terms have
/// a delta distribution: their probability density is reported as zero
/// and callers must never weight them by it.
pub fn is_specular(t: u8) -> (r: bool)
    ensures
        r == (t & BSDF_SPECULAR != 0),
{
    t & BSDF_SPECULAR != 0
}

/// Masking drops exactly the excluded kind: a term is admitted by a mask
/// with `kind` dropped precisely when the full mask admits it and it
/// holds no bit of `kind`. So the hemisphere test never lets an excluded
/// term in, and never loses a term of the kinds that remain.
pub proof fn lemma_mask_drops_kind(t: u8, flags: u8, kind: u8)
    ensures
        has_flags(t, flags & !kind) <==> has_flags(t, flags) && t & kind == 0,
{
    assert(t & (flags & !kind) == t <==> (t & flags == t) && (t & kind == 0)) by (bit_vector);
}

/// How many of the terms in `s` the mask admits.
pub open spec fn count_matching(s: Seq<u8>, flags: u8) -> int
    decreases s.len(),
{
    if s.len() == 0 {
        0
    } else {
        count_matching(s.drop_last(), flags) + if has_flags(s.last(), flags) {
            1int
        } else {
            0int
        }
    }
}

pub proof fn lemma_count_matching_nonneg(s: Seq<u8>, flags: u8)
    ensures
        0 <= count_matching(s, flags),
    decreases s.len(),
{
    if s.len() > 0 {
        lemma_count_matching_nonneg(s.drop_last(), flags);
    }
}

/// Looking at one more term extends the running count.
pub proof fn lemma_count_matching_take_succ(s: Seq<u8>, flags: u8, i: int)
    requires
        0 <= i < s.len(),
    ensures
        count_matching(s.take(i + 1), flags) == count_matching(s.take(i), flags) + if has_flags(
            s[i],
            flags,
        ) {
            1int
        } else {
            0int
        },
{
    assert(s.take(i + 1).drop_last() =~= s.take(i));
    assert(s.take(i + 1).last() == s[i]);
}

/// A running count never exceeds the full count.
pub proof fn lemma_count_matching_take_le(s: Seq<u8>, flags: u8, i: int)
    requires
        0 <= i <= s.len(),
    ensures
        count_matching(s.take(i), flags) <= count_matching(s, flags),
    decreases s.len() - i,
{
    if i == s.len() {
        assert(s.take(i) =~= s);
    } else {
        lemma_count_matching_take_succ(s, flags, i);
        lemma_count_matching_take_le(s, flags, i + 1);
    }
}

/// How many of the term types in `types` the mask admits.
pub fn num_matching(types: &Vec<u8>, flags: u8) -> (r: usize)
    ensures
        r == count_matching(types@, flags),
{
    proof {
        lemma_count_matching_nonneg(types@, flags);
    }
    let n = types.len();
    let mut count: usize = 0;
    let mut i: usize = 0;
    while i < n
        invariant
            i <= n,
            n == types@.len(),
            count == count_matching(types@.take(i as int), flags),
            count <= i,
        decreases n - i,
    {
        proof {
            lemma_count_matching_take_succ(types@, flags, i as int);
        }
        if matches_flags(types[i], flags) {
            count = count + 1;
        }
        i = i + 1;
    }
    proof {
        assert(types@.take(n as int) =~= types@);
    }
    count
}

/// The index of the `which`-th term (counting from zero, in order) that
/// the mask admits: this is how a sample fraction picks the scattering
/// term that `sample_f` delegates to. `None` exactly when fewer than
/// `which + 1` terms match.
pub fn nth_matching(types: &Vec<u8>, flags: u8, which: usize) -> (r: Option<usize>)
    ensures
        r is Some <==> which < count_matching(types@, flags),
        match r {
            Some(i) => {
                &&& i < types@.len()
                &&& has_flags(types@[i as int], flags)
                &&& count_matching(types@.take(i as int), flags) == which
            },
            None => true,
        },
{
    let n = types.len();
    let mut count: usize = 0;
    let mut i: usize = 0;
    while i < n
        invariant
            i <= n,
            n == types@.len(),
            count == count_matching(types@.take(i as int), flags),
            count <= which,
        decreases n - i,
    {
        proof {
            lemma_count_matching_take_succ(types@, flags, i as int);
            lemma_count_matching_take_le(types@, flags, i + 1);
        }
        if matches_flags(types[i], flags) {
            if count == which {
                return Some(i);
            }
            count = count + 1;
        }
        i = i + 1;
    }
    proof {
        assert(types@.take(n as int) =~= types@);
    }
    None
}

/// Where a group of BSDF sample values lives in the sample buffer: one 1D
/// group for the term-selection fractions and one 2D group for the
/// direction fractions, both of `n_samples` values per pixel sample.
pub struct BSDFSampleOffsets {
    pub n_samples: u32,
    pub component_offset: SampleOffset1d,
    pub dir_offset: SampleOffset2d,
}

impl BSDFSampleOffsets {
    /// Register the two groups with the layout.
    pub fn new(count: u32, sample: &mut SampleLayout) -> (r: BSDFSampleOffsets)
        ensures
            r.n_samples == count,
            r.component_offset.0 == old(sample).counts_1d().len(),
            r.dir_offset.0 == old(sample).counts_2d().len(),
            final(sample).counts_1d() =~= old(sample).counts_1d().push(count as usize),
            final(sample).counts_2d() =~= old(sample).counts_2d().push(count as usize),
            final(sample).ptrs_1d() == old(sample).ptrs_1d(),
            final(sample).ptrs_2d() == old(sample).ptrs_2d(),
            final(sample).mem_size_spec() == old(sample).mem_size_spec(),
    {
        let component_offset = sample.add_1d(count);
        let dir_offset = sample.add_2d(count);
        BSDFSampleOffsets { n_samples: count, component_offset, dir_offset }
    }
}

} // verus!
