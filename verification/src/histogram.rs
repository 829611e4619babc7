//! The per-CPU size histogram: one counter per power-of-two bucket and a
//! running sum of the recorded sizes, all saturating.

use vstd::prelude::*;

verus! {

/// Exclusive upper bound of the bucket indices that are counted: the binary
/// logarithm of 16 GiB.
pub const MAX_TRACKED_ALLOCATION_SIZE: usize = 34;

/// Number of counters in a histogram record.
pub const BUCKETS: usize = 35;

/// The binary logarithm of `v`, rounded down; 0 for `v == 0`.
pub open spec fn floor_log2(v: u64) -> nat
    decreases v,
{
    if v <= 1 {
        0
    } else {
        1 + floor_log2(v / 2)
    }
}

/// Addition that stops at `u64::MAX`.
pub open spec fn sat_add(a: u64, b: u64) -> u64 {
    if a + b > u64::MAX {
        u64::MAX
    } else {
        (a + b) as u64
    }
}

/// Sum of all entries of `counts`, without a bound.
pub open spec fn count_sum(counts: Seq<u64>) -> nat
    decreases counts.len(),
{
    if counts.len() == 0 {
        0
    } else {
        count_sum(counts.drop_last()) + counts.last() as nat
    }
}

/// What a histogram holds: its counters, lowest bucket first, and the sum of
/// the recorded sizes.
pub struct HistogramView {
    pub counts: Seq<u64>,
    pub total: u64,
}

impl HistogramView {
    /// The record in which nothing was counted.
    pub open spec fn zero() -> HistogramView {
        HistogramView { counts: Seq::new(BUCKETS as nat, |i: int| 0u64), total: 0 }
    }

    /// The record after one allocation of `value` bytes was counted.
    pub open spec fn incremented(self, value: u64) -> HistogramView {
        if value == 0 {
            self
        } else {
            let bucket = floor_log2(value) as int;
            HistogramView {
                counts: if bucket < MAX_TRACKED_ALLOCATION_SIZE {
                    self.counts.update(bucket, sat_add(self.counts[bucket], 1))
                } else {
                    self.counts
                },
                total: sat_add(self.total, value),
            }
        }
    }

    /// The counter-wise saturating sum of two records.
    pub open spec fn merged(self, other: HistogramView) -> HistogramView {
        HistogramView {
            counts: Seq::new(
                self.counts.len(),
                |i: int| sat_add(self.counts[i], other.counts[i]),
            ),
            total: sat_add(self.total, other.total),
        }
    }

    /// Number of counted allocations, capped at `u64::MAX`.
    pub open spec fn total_count(self) -> u64 {
        if count_sum(self.counts) > u64::MAX {
            u64::MAX
        } else {
            count_sum(self.counts) as u64
        }
    }

    /// No counter has fallen, nor has the sum.
    pub open spec fn no_less_than(self, before: HistogramView) -> bool {
        &&& self.counts.len() == before.counts.len()
        &&& self.total >= before.total
        &&& forall|i: int| 0 <= i < self.counts.len() ==> self.counts[i] >= before.counts[i]
    }

    /// What holds of every record that grew from zero by counting and
    /// merging: no counter exceeds the sum of sizes, and unless that sum has
    /// saturated, neither does the number of allocations.
    pub open spec fn consistent(self) -> bool {
        &&& self.counts.len() == BUCKETS
        &&& forall|i: int| 0 <= i < self.counts.len() ==> self.counts[i] <= self.total
        &&& self.total < u64::MAX ==> count_sum(self.counts) <= self.total
    }
}

/// The histogram record as it lies in the shared table.
#[derive(Clone, Debug, Copy)]
pub struct Histogram {
    pub data: [u64; BUCKETS],
    pub total: u64,
}

impl View for Histogram {
    type V = HistogramView;

    open spec fn view(&self) -> HistogramView {
        HistogramView { counts: self.data@, total: self.total }
    }
}

impl Histogram {
    #[allow(clippy::new_without_default)]
    pub fn new() -> (hist: Self)
        ensures
            hist@ == HistogramView::zero(),
    {
        let hist = Histogram { data: [0u64; BUCKETS], total: 0 };
        assert(hist@.counts =~= HistogramView::zero().counts);
        hist
    }
}

/// The binary logarithm of a non-zero value, rounded down.
pub fn ilog2(value: u64) -> (log: u32)
    requires
        value > 0,
    ensures
        log == floor_log2(value),
        log < 64,
{
    let mut rest: u64 = value;
    let mut log: u32 = 0;
    assert(rest <= u64::MAX >> 0u64) by (bit_vector);
    while rest > 1
        invariant
            rest >= 1,
            log < 64,
            rest <= u64::MAX >> (log as u64),
            floor_log2(value) == log + floor_log2(rest),
        decreases rest,
    {
        let ghost shift = log as u64;
        assert(rest / 2 <= u64::MAX >> ((shift + 1) as u64) && shift < 63) by (bit_vector)
            requires
                rest > 1,
                shift < 64,
                rest <= u64::MAX >> shift,
        ;
        rest = rest / 2;
        log = log + 1;
    }
    log
}

impl Histogram {
    /// Counts one allocation of `value` bytes. A zero size is ignored; a size
    /// of 16 GiB or more is added to the sum and to no bucket.
    pub fn increment(&mut self, value: u64)
        ensures
            final(self)@ == old(self)@.incremented(value),
            final(self)@.no_less_than(old(self)@),
            old(self)@.consistent() ==> final(self)@.consistent(),
    {
        if value == 0 {
            return ;
        }
        let pow2 = ilog2(value) as usize;
        if pow2 < MAX_TRACKED_ALLOCATION_SIZE {
            let bumped = self.data[pow2].saturating_add(1);
            self.data[pow2] = bumped;
        }
        self.total = self.total.saturating_add(value);
        proof {
            assert(self@.counts =~= old(self)@.incremented(value).counts);
            if old(self)@.consistent() {
                lemma_increment_keeps_consistent(old(self)@, value);
            }
        }
    }
}

/// The sum of a sequence after one entry was replaced.
pub proof fn lemma_count_sum_update(counts: Seq<u64>, i: int, v: u64)
    requires
        0 <= i < counts.len(),
    ensures
        count_sum(counts.update(i, v)) == count_sum(counts) - counts[i] + v,
    decreases counts.len(),
{
    let after = counts.update(i, v);
    if i == counts.len() - 1 {
        assert(after.drop_last() =~= counts.drop_last());
    } else {
        assert(after.drop_last() =~= counts.drop_last().update(i, v));
        lemma_count_sum_update(counts.drop_last(), i, v);
    }
}

/// Counting an allocation keeps a record consistent.
pub proof fn lemma_increment_keeps_consistent(h: HistogramView, value: u64)
    requires
        h.consistent(),
    ensures
        h.incremented(value).consistent(),
{
    if value != 0 {
        let bucket = floor_log2(value) as int;
        if bucket < MAX_TRACKED_ALLOCATION_SIZE {
            lemma_count_sum_update(h.counts, bucket, sat_add(h.counts[bucket], 1));
        }
    }
}


impl Histogram {
    /// Adds every counter of `other`, and its sum, to this record.
    pub fn merge(&mut self, other: &Histogram)
        ensures
            final(self)@ == old(self)@.merged(other@),
            final(self)@.no_less_than(old(self)@),
            old(self)@.consistent() && other@.consistent() ==> final(self)@.consistent(),
    {
        self.total = self.total.saturating_add(other.total);
        let mut i: usize = 0;
        while i < BUCKETS
            invariant
                i <= BUCKETS,
                self.total == sat_add(old(self).total, other.total),
                forall|j: int|
                    0 <= j < i ==> self.data@[j] == sat_add(old(self).data@[j], other.data@[j]),
                forall|j: int| i <= j < BUCKETS ==> self.data@[j] == old(self).data@[j],
            decreases BUCKETS - i,
        {
            let sum = self.data[i].saturating_add(other.data[i]);
            self.data[i] = sum;
            i = i + 1;
        }
        proof {
            assert(self@.counts =~= old(self)@.merged(other@).counts);
            if old(self)@.consistent() && other@.consistent() {
                lemma_merge_keeps_consistent(old(self)@, other@);
            }
        }
    }

    /// Number of counted allocations, capped at `u64::MAX`.
    pub fn total_count(&self) -> (count: u64)
        ensures
            count == self@.total_count(),
    {
        let mut count: u64 = 0;
        let mut i: usize = 0;
        while i < BUCKETS
            invariant
                i <= BUCKETS,
                count_sum(self.data@.take(i as int)) > u64::MAX ==> count == u64::MAX,
                count_sum(self.data@.take(i as int)) <= u64::MAX ==> count == count_sum(
                    self.data@.take(i as int),
                ),
            decreases BUCKETS - i,
        {
            assert(self.data@.take(i + 1).drop_last() =~= self.data@.take(i as int));
            count = count.saturating_add(self.data[i]);
            i = i + 1;
        }
        assert(self.data@.take(BUCKETS as int) =~= self.data@);
        count
    }
}

/// The sum of the counter-wise saturating sums is at most the sum of both.
pub proof fn lemma_count_sum_merged(a: Seq<u64>, b: Seq<u64>)
    requires
        a.len() == b.len(),
    ensures
        count_sum(Seq::new(a.len(), |i: int| sat_add(a[i], b[i]))) <= count_sum(a) + count_sum(b),
    decreases a.len(),
{
    let m = Seq::new(a.len(), |i: int| sat_add(a[i], b[i]));
    if a.len() > 0 {
        let shorter = Seq::new(
            a.drop_last().len(),
            |i: int| sat_add(a.drop_last()[i], b.drop_last()[i]),
        );
        assert(m.drop_last() =~= shorter);
        lemma_count_sum_merged(a.drop_last(), b.drop_last());
    }
}

/// Merging two consistent records gives a consistent record.
pub proof fn lemma_merge_keeps_consistent(a: HistogramView, b: HistogramView)
    requires
        a.consistent(),
        b.consistent(),
    ensures
        a.merged(b).consistent(),
{
    lemma_count_sum_merged(a.counts, b.counts);
}

/// Merging is commutative: either order gives the same record.
pub proof fn lemma_merge_commutative(a: HistogramView, b: HistogramView)
    requires
        a.counts.len() == b.counts.len(),
    ensures
        a.merged(b) == b.merged(a),
{
    assert(a.merged(b).counts =~= b.merged(a).counts);
}

/// Merging is associative: three records merge to the same record however
/// they are grouped.
pub proof fn lemma_merge_associative(a: HistogramView, b: HistogramView, c: HistogramView)
    requires
        a.counts.len() == b.counts.len(),
        b.counts.len() == c.counts.len(),
    ensures
        a.merged(b).merged(c) == a.merged(b.merged(c)),
{
    assert(a.merged(b).merged(c).counts =~= a.merged(b.merged(c)).counts);
}

/// Merging the zero record into a record of full length changes nothing.
pub proof fn lemma_merge_zero(a: HistogramView)
    requires
        a.counts.len() == BUCKETS,
    ensures
        a.merged(HistogramView::zero()) == a,
        HistogramView::zero().merged(a) == a,
{
    assert(a.merged(HistogramView::zero()).counts =~= a.counts);
    assert(HistogramView::zero().merged(a).counts =~= a.counts);
}


/// `2^exp` for the exponents that a `u64` can hold.
pub open spec fn pow2_u64(exp: nat) -> u64
    recommends
        exp < 64,
{
    (1u64 << (exp as u64)) as u64
}

/// The bucket of a non-zero size lies below `exp` exactly if the size lies
/// below `2^exp`.
pub proof fn lemma_floor_log2_below(value: u64, exp: nat)
    requires
        value > 0,
        exp < 64,
    ensures
        floor_log2(value) < exp <==> value < pow2_u64(exp),
    decreases exp,
{
    let e = exp as u64;
    if exp == 0 {
        assert(1u64 << 0u64 == 1u64) by (bit_vector);
    } else if value == 1 {
        assert(1u64 << e > 1u64) by (bit_vector)
            requires
                0 < e < 64,
        ;
    } else {
        lemma_floor_log2_below(value / 2, (exp - 1) as nat);
        let d = (exp - 1) as u64;
        assert((value / 2 < 1u64 << d) <==> (value < 1u64 << e)) by (bit_vector)
            requires
                0 < e < 64,
                d == e - 1,
        ;
    }
}

/// A size is counted in a bucket exactly if it is non-zero and below 16 GiB.
pub proof fn lemma_tracked_sizes(value: u64)
    requires
        value > 0,
    ensures
        floor_log2(value) < MAX_TRACKED_ALLOCATION_SIZE <==> value < 0x4_0000_0000,
{
    lemma_floor_log2_below(value, 34);
    assert(1u64 << 34u64 == 0x4_0000_0000u64) by (bit_vector);
}

/// The bucket of a size is the exponent of the largest power of two that
/// does not exceed it.
pub proof fn lemma_floor_log2_bounds(value: u64)
    requires
        value > 0,
    ensures
        floor_log2(value) < 64,
        pow2_u64(floor_log2(value)) <= value,
        floor_log2(value) < 63 ==> value < pow2_u64(floor_log2(value) + 1),
    decreases value,
{
    if value == 1 {
        assert(1u64 << 0u64 == 1u64) by (bit_vector);
        assert(1u64 << 1u64 == 2u64) by (bit_vector);
    } else {
        lemma_floor_log2_bounds(value / 2);
        let half = value / 2;
        let d = floor_log2(half) as u64;
        let e = (d + 1) as u64;
        assert(d < 63 && (1u64 << e) <= value) by (bit_vector)
            requires
                half == value / 2,
                d < 64,
                e == d + 1,
                (1u64 << d) <= half,
        ;
        if e < 63 {
            let f = (e + 1) as u64;
            assert(value < 1u64 << f) by (bit_vector)
                requires
                    half == value / 2,
                    e < 63,
                    f == e + 1,
                    half < 1u64 << e,
            ;
        }
    }
}


/// No counter exceeds the number of counted allocations.
pub proof fn lemma_count_within_total(h: HistogramView, i: int)
    requires
        0 <= i < h.counts.len(),
    ensures
        h.counts[i] <= h.total_count(),
        h.counts[i] <= count_sum(h.counts),
    decreases h.counts.len(),
{
    if i < h.counts.len() - 1 {
        lemma_count_within_total(
            HistogramView { counts: h.counts.drop_last(), total: h.total },
            i,
        );
    }
}


/// Counting an allocation lowers no counter and not the sum of sizes.
pub proof fn lemma_increment_grows(h: HistogramView, value: u64)
    requires
        h.counts.len() == BUCKETS,
    ensures
        h.incremented(value).no_less_than(h),
{
}

/// Counting an allocation of size 0 changes nothing.
pub proof fn lemma_increment_zero(h: HistogramView)
    ensures
        h.incremented(0) == h,
{
}

/// Counting an allocation of a size from 1 to below 16 GiB raises the counter
/// of the size's bucket by one and no other, and adds the size to the sum.
pub proof fn lemma_increment_tracked(h: HistogramView, value: u64)
    requires
        h.counts.len() == BUCKETS,
        1 <= value < 0x4_0000_0000,
    ensures
        floor_log2(value) < MAX_TRACKED_ALLOCATION_SIZE,
        h.incremented(value).counts.len() == h.counts.len(),
        h.incremented(value).counts[floor_log2(value) as int] == sat_add(
            h.counts[floor_log2(value) as int],
            1,
        ),
        forall|i: int|
            0 <= i < h.counts.len() && i != floor_log2(value) ==> h.incremented(value).counts[i]
                == h.counts[i],
        h.incremented(value).total == sat_add(h.total, value),
{
    lemma_tracked_sizes(value);
}

/// Counting an allocation of 16 GiB or more changes no counter and adds the
/// size to the sum.
pub proof fn lemma_increment_untracked(h: HistogramView, value: u64)
    requires
        value >= 0x4_0000_0000,
    ensures
        h.incremented(value).counts == h.counts,
        h.incremented(value).total == sat_add(h.total, value),
{
    lemma_tracked_sizes(value);
}

/// Merging lowers no counter and not the sum of sizes.
pub proof fn lemma_merge_grows(a: HistogramView, b: HistogramView)
    requires
        a.counts.len() == b.counts.len(),
    ensures
        a.merged(b).no_less_than(a),
{
}

} // verus!
