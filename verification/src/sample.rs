//! Per-pixel sample memory: integrators register named groups of 1D and 2D
//! sample values before rendering begins, and the layout then assigns every
//! group a fixed, disjoint slot of one flat buffer (an arena sized once).
//!
//! A 1D group of `count` values takes `count` buffer cells; a 2D group takes
//! `2 * count`. All 1D slots come first, in registration order, then all 2D
//! slots.

use vstd::prelude::*;

verus! {

/// Handle for a registered group of 1D sample values: the index of the
/// group in registration order.
#[derive(Clone, Copy)]
pub struct SampleOffset1d(pub usize);

/// Handle for a registered group of 2D sample values.
#[derive(Clone, Copy)]
pub struct SampleOffset2d(pub usize);

/// Position of a group's first value in the flat sample buffer.
#[derive(Clone, Copy)]
pub struct SamplePtr(pub usize);

/// Sum of a sequence of group sizes.
pub open spec fn sum_counts(s: Seq<usize>) -> int
    decreases s.len(),
{
    if s.len() == 0 {
        0
    } else {
        sum_counts(s.drop_last()) + s.last()
    }
}

pub proof fn lemma_sum_counts_nonneg(s: Seq<usize>)
    ensures
        0 <= sum_counts(s),
    decreases s.len(),
{
    if s.len() > 0 {
        lemma_sum_counts_nonneg(s.drop_last());
    }
}

/// Adding the next group size extends the prefix sum.
pub proof fn lemma_sum_take_succ(s: Seq<usize>, i: int)
    requires
        0 <= i < s.len(),
    ensures
        sum_counts(s.take(i + 1)) == sum_counts(s.take(i)) + s[i],
{
    assert(s.take(i + 1).drop_last() =~= s.take(i));
    assert(s.take(i + 1).last() == s[i]);
}

/// A prefix sum never exceeds the total.
pub proof fn lemma_sum_take_le(s: Seq<usize>, i: int)
    requires
        0 <= i <= s.len(),
    ensures
        sum_counts(s.take(i)) <= sum_counts(s),
    decreases s.len() - i,
{
    if i == s.len() {
        assert(s.take(i) =~= s);
    } else {
        lemma_sum_take_succ(s, i);
        lemma_sum_take_le(s, i + 1);
    }
}

/// Prefix sums are monotone in the prefix length.
pub proof fn lemma_sum_take_monotone(s: Seq<usize>, i: int, j: int)
    requires
        0 <= i <= j <= s.len(),
    ensures
        sum_counts(s.take(i)) <= sum_counts(s.take(j)),
{
    assert(s.take(j).take(i) =~= s.take(i));
    lemma_sum_take_le(s.take(j), i);
}

/// The registered sample groups and, once computed, the position of each
/// group's slot in the flat buffer.
pub struct SampleLayout {
    n1d: Vec<usize>,
    n2d: Vec<usize>,
    one_d: Vec<SamplePtr>,
    two_d: Vec<SamplePtr>,
    mem_size: usize,
}

impl SampleLayout {
    /// Sizes of the registered 1D groups, in registration order.
    pub closed spec fn counts_1d(self) -> Seq<usize> {
        self.n1d@
    }

    /// Sizes of the registered 2D groups, in registration order.
    pub closed spec fn counts_2d(self) -> Seq<usize> {
        self.n2d@
    }

    /// The computed slot starts of the 1D groups.
    pub closed spec fn ptrs_1d(self) -> Seq<SamplePtr> {
        self.one_d@
    }

    /// The computed slot starts of the 2D groups.
    pub closed spec fn ptrs_2d(self) -> Seq<SamplePtr> {
        self.two_d@
    }

    /// The recorded size of the whole buffer.
    pub closed spec fn mem_size_spec(self) -> int {
        self.mem_size as int
    }

    /// Buffer cells taken by all 1D groups together.
    pub open spec fn size_1d(self) -> int {
        sum_counts(self.counts_1d())
    }

    /// Buffer cells taken by all 2D groups together.
    pub open spec fn size_2d(self) -> int {
        2 * sum_counts(self.counts_2d())
    }

    /// Cells of the whole buffer.
    pub open spec fn total_size(self) -> int {
        self.size_1d() + self.size_2d()
    }

    /// Where the 1D group `i` starts: after the 1D groups before it.
    pub open spec fn start_1d(self, i: int) -> int {
        sum_counts(self.counts_1d().take(i))
    }

    /// Where the 2D group `j` starts: after every 1D group and the 2D
    /// groups before it.
    pub open spec fn start_2d(self, j: int) -> int {
        self.size_1d() + 2 * sum_counts(self.counts_2d().take(j))
    }

    /// The slot positions have been computed and agree with the group sizes.
    pub open spec fn is_allocated(self) -> bool {
        &&& self.ptrs_1d().len() == self.counts_1d().len()
        &&& self.ptrs_2d().len() == self.counts_2d().len()
        &&& forall|i: int| #![trigger self.ptrs_1d()[i]]
            0 <= i < self.counts_1d().len() ==> self.ptrs_1d()[i].0 == self.start_1d(i)
        &&& forall|j: int| #![trigger self.ptrs_2d()[j]]
            0 <= j < self.counts_2d().len() ==> self.ptrs_2d()[j].0 == self.start_2d(j)
        &&& self.mem_size_spec() == self.total_size()
    }

    /// An empty layout: no groups registered, no slots computed.
    pub fn new() -> (layout: SampleLayout)
        ensures
            layout.counts_1d() =~= Seq::<usize>::empty(),
            layout.counts_2d() =~= Seq::<usize>::empty(),
            layout.ptrs_1d().len() == 0,
            layout.ptrs_2d().len() == 0,
    {
        SampleLayout { n1d: Vec::new(), n2d: Vec::new(), one_d: Vec::new(), two_d: Vec::new(), mem_size: 0 }
    }

    /// Register a group of `count` 1D sample values; the handle names the
    /// group from here on.
    pub fn add_1d(&mut self, count: u32) -> (off: SampleOffset1d)
        ensures
            final(self).counts_1d() =~= old(self).counts_1d().push(count as usize),
            final(self).counts_2d() == old(self).counts_2d(),
            final(self).ptrs_1d() == old(self).ptrs_1d(),
            final(self).ptrs_2d() == old(self).ptrs_2d(),
            final(self).mem_size_spec() == old(self).mem_size_spec(),
            off.0 == old(self).counts_1d().len(),
    {
        let off = SampleOffset1d(self.n1d.len());
        self.n1d.push(count as usize);
        off
    }

    /// Register a group of `count` 2D sample values.
    pub fn add_2d(&mut self, count: u32) -> (off: SampleOffset2d)
        ensures
            final(self).counts_2d() =~= old(self).counts_2d().push(count as usize),
            final(self).counts_1d() == old(self).counts_1d(),
            final(self).ptrs_1d() == old(self).ptrs_1d(),
            final(self).ptrs_2d() == old(self).ptrs_2d(),
            final(self).mem_size_spec() == old(self).mem_size_spec(),
            off.0 == old(self).counts_2d().len(),
    {
        let off = SampleOffset2d(self.n2d.len());
        self.n2d.push(count as usize);
        off
    }

    /// Size the buffer and give every registered group its slot. Called
    /// once, after every group has been registered.
    pub fn allocate_sample_memory(&mut self)
        requires
            old(self).ptrs_1d().len() == 0,
            old(self).ptrs_2d().len() == 0,
            old(self).total_size() <= usize::MAX,
        ensures
            final(self).counts_1d() == old(self).counts_1d(),
            final(self).counts_2d() == old(self).counts_2d(),
            final(self).is_allocated(),
    {
        proof {
            lemma_sum_counts_nonneg(self.n1d@);
            lemma_sum_counts_nonneg(self.n2d@);
        }
        let ghost orig = *self;
        let mut next: usize = 0;
        let n1 = self.n1d.len();
        let mut i: usize = 0;
        while i < n1
            invariant
                self.n1d@ == orig.n1d@,
                self.n2d@ == orig.n2d@,
                self.two_d@ == orig.two_d@,
                self.mem_size == orig.mem_size,
                i <= n1,
                n1 == self.n1d@.len(),
                self.one_d@.len() == i,
                forall|k: int| #![trigger self.one_d@[k]]
                    0 <= k < i ==> self.one_d@[k].0 == self.start_1d(k),
                next == sum_counts(self.n1d@.take(i as int)),
                self.total_size() <= usize::MAX,
            decreases n1 - i,
        {
            proof {
                lemma_sum_take_succ(self.n1d@, i as int);
                lemma_sum_take_le(self.n1d@, i + 1);
                lemma_sum_counts_nonneg(self.n2d@);
            }
            self.one_d.push(SamplePtr(next));
            next = next + self.n1d[i];
            i = i + 1;
        }
        proof {
            assert(self.n1d@.take(n1 as int) =~= self.n1d@);
        }
        let n2 = self.n2d.len();
        let mut j: usize = 0;
        while j < n2
            invariant
                self.n1d@ == orig.n1d@,
                self.n2d@ == orig.n2d@,
                self.mem_size == orig.mem_size,
                self.one_d@.len() == self.n1d@.len(),
                forall|k: int| #![trigger self.one_d@[k]]
                    0 <= k < self.n1d@.len() ==> self.one_d@[k].0 == self.start_1d(k),
                j <= n2,
                n2 == self.n2d@.len(),
                self.two_d@.len() == j,
                forall|k: int| #![trigger self.two_d@[k]]
                    0 <= k < j ==> self.two_d@[k].0 == self.start_2d(k),
                next == self.size_1d() + 2 * sum_counts(self.n2d@.take(j as int)),
                self.total_size() <= usize::MAX,
            decreases n2 - j,
        {
            proof {
                lemma_sum_take_succ(self.n2d@, j as int);
                lemma_sum_take_le(self.n2d@, j + 1);
                lemma_sum_counts_nonneg(self.n2d@.take(j as int));
            }
            self.two_d.push(SamplePtr(next));
            let c = self.n2d[j];
            next = next + c;
            next = next + c;
            j = j + 1;
        }
        proof {
            assert(self.n2d@.take(n2 as int) =~= self.n2d@);
        }
        self.mem_size = next;
    }

    /// Cells of the whole buffer; what a sample buffer must be sized to.
    pub fn mem_size(&self) -> (r: usize)
        requires
            self.is_allocated(),
        ensures
            r == self.total_size(),
    {
        self.mem_size
    }

    /// How many 1D groups are registered.
    pub fn num_1d(&self) -> (r: usize)
        ensures
            r == self.counts_1d().len(),
    {
        self.n1d.len()
    }

    /// How many 2D groups are registered.
    pub fn num_2d(&self) -> (r: usize)
        ensures
            r == self.counts_2d().len(),
    {
        self.n2d.len()
    }

    /// The slot of 1D group `off`: its start cell and its length in cells.
    /// The slot lies within the buffer.
    pub fn range_1d(&self, off: SampleOffset1d) -> (r: (usize, usize))
        requires
            self.is_allocated(),
            off.0 < self.counts_1d().len(),
        ensures
            r.0 == self.start_1d(off.0 as int),
            r.1 == self.counts_1d()[off.0 as int],
            r.0 + r.1 <= self.total_size(),
    {
        proof {
            lemma_sum_take_succ(self.n1d@, off.0 as int);
            lemma_sum_take_le(self.n1d@, off.0 + 1);
            lemma_sum_counts_nonneg(self.n2d@);
            assert(self.start_1d(off.0 as int) + self.counts_1d()[off.0 as int]
                == sum_counts(self.n1d@.take(off.0 + 1)));
        }
        (self.one_d[off.0].0, self.n1d[off.0])
    }

    /// The slot of 2D group `off`: its start cell and its length in cells
    /// (two cells per sample). The slot lies within the buffer.
    pub fn range_2d(&self, off: SampleOffset2d) -> (r: (usize, usize))
        requires
            self.is_allocated(),
            off.0 < self.counts_2d().len(),
        ensures
            r.0 == self.start_2d(off.0 as int),
            r.1 == 2 * self.counts_2d()[off.0 as int],
            r.0 + r.1 <= self.total_size(),
    {
        proof {
            lemma_sum_take_succ(self.n2d@, off.0 as int);
            lemma_sum_take_le(self.n2d@, off.0 + 1);
            lemma_sum_counts_nonneg(self.n1d@);
            lemma_sum_counts_nonneg(self.n2d@.take(off.0 as int));
            assert(self.start_2d(off.0 as int) + 2 * self.counts_2d()[off.0 as int]
                == self.size_1d() + 2 * sum_counts(self.n2d@.take(off.0 + 1)));
            assert(self.start_2d(off.0 as int) + 2 * self.counts_2d()[off.0 as int]
                <= self.total_size());
        }
        let start = self.two_d[off.0].0;
        let c = self.n2d[off.0];
        (start, c + c)
    }

    /// Every registered 1D group with its size, in registration order.
    pub fn offsets_1d(&self) -> (r: Vec<(SampleOffset1d, usize)>)
        ensures
            r@.len() == self.counts_1d().len(),
            forall|i: int| #![trigger r@[i]]
                0 <= i < r@.len() ==> r@[i].0.0 == i && r@[i].1 == self.counts_1d()[i],
    {
        let mut r: Vec<(SampleOffset1d, usize)> = Vec::new();
        let n = self.n1d.len();
        let mut i: usize = 0;
        while i < n
            invariant
                i <= n,
                n == self.n1d@.len(),
                r@.len() == i,
                forall|k: int| #![trigger r@[k]]
                    0 <= k < i ==> r@[k].0.0 == k && r@[k].1 == self.n1d@[k],
            decreases n - i,
        {
            r.push((SampleOffset1d(i), self.n1d[i]));
            i = i + 1;
        }
        r
    }

    /// Every registered 2D group with its size, in registration order.
    pub fn offsets_2d(&self) -> (r: Vec<(SampleOffset2d, usize)>)
        ensures
            r@.len() == self.counts_2d().len(),
            forall|i: int| #![trigger r@[i]]
                0 <= i < r@.len() ==> r@[i].0.0 == i && r@[i].1 == self.counts_2d()[i],
    {
        let mut r: Vec<(SampleOffset2d, usize)> = Vec::new();
        let n = self.n2d.len();
        let mut i: usize = 0;
        while i < n
            invariant
                i <= n,
                n == self.n2d@.len(),
                r@.len() == i,
                forall|k: int| #![trigger r@[k]]
                    0 <= k < i ==> r@[k].0.0 == k && r@[k].1 == self.n2d@[k],
            decreases n - i,
        {
            r.push((SampleOffset2d(i), self.n2d[i]));
            i = i + 1;
        }
        r
    }
}

/// The arena is laid out without overlap: two distinct 1D slots are
/// disjoint, every 1D slot ends before every 2D slot begins, two distinct
/// 2D slots are disjoint, and every slot lies within the buffer. Offsets
/// registered once are thus stable for the lifetime of a render: filling
/// one group can never touch another group's values.
pub proof fn lemma_slots_disjoint(layout: SampleLayout, i: int, j: int)
    requires
        0 <= i,
        0 <= j,
    ensures
        i < j < layout.counts_1d().len() ==> layout.start_1d(i) + layout.counts_1d()[i]
            <= layout.start_1d(j),
        i < layout.counts_1d().len() && j < layout.counts_2d().len() ==> layout.start_1d(i)
            + layout.counts_1d()[i] <= layout.start_2d(j),
        i < j < layout.counts_2d().len() ==> layout.start_2d(i) + 2 * layout.counts_2d()[i]
            <= layout.start_2d(j),
        i < layout.counts_2d().len() ==> layout.start_2d(i) + 2 * layout.counts_2d()[i]
            <= layout.total_size(),
{
    if i < layout.counts_1d().len() {
        lemma_sum_take_succ(layout.n1d@, i);
        if i < j < layout.counts_1d().len() {
            lemma_sum_take_monotone(layout.n1d@, i + 1, j);
        }
        lemma_sum_take_le(layout.n1d@, i + 1);
        lemma_sum_counts_nonneg(layout.n2d@.take(j));
    }
    if i < layout.counts_2d().len() {
        lemma_sum_take_succ(layout.n2d@, i);
        if i < j < layout.counts_2d().len() {
            lemma_sum_take_monotone(layout.n2d@, i + 1, j);
        }
        lemma_sum_take_le(layout.n2d@, i + 1);
    }
}

} // verus!
