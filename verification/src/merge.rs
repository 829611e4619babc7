//! What merging the per-CPU shards of each call stack means, and why the
//! order in which the shards are met does not matter.

use crate::histogram::{
    lemma_merge_associative, lemma_merge_commutative, lemma_merge_zero, Histogram, HistogramView,
    BUCKETS,
};
use crate::schema::{ReducedEventKey, UnpackedHistogramKey};
use vstd::prelude::*;

verus! {

/// Number of CPU numbers that a key can carry.
pub open spec fn cpu_limit() -> nat {
    0x1_0000_0000
}

/// The key of the shard of a call stack on one CPU.
pub open spec fn shard_key(stack: ReducedEventKey, cpu: nat) -> UnpackedHistogramKey {
    UnpackedHistogramKey { pid: stack.pid, stack_id: stack.stack_id, cpu: cpu as u32 }
}

/// The shards of `stack` on the CPUs below `upto`, merged in the order of
/// their CPU numbers.
pub open spec fn shard_sum(
    stats: Map<UnpackedHistogramKey, Histogram>,
    stack: ReducedEventKey,
    upto: nat,
) -> HistogramView
    decreases upto,
{
    if upto == 0 {
        HistogramView::zero()
    } else {
        let below = shard_sum(stats, stack, (upto - 1) as nat);
        let key = shard_key(stack, (upto - 1) as nat);
        if stats.contains_key(key) {
            below.merged(stats[key]@)
        } else {
            below
        }
    }
}

/// Whether the store holds a shard of `stack` on some CPU.
pub open spec fn has_shard(
    stats: Map<UnpackedHistogramKey, Histogram>,
    stack: ReducedEventKey,
) -> bool {
    exists|key: UnpackedHistogramKey| #[trigger] stats.contains_key(key) && key.reduced() == stack
}

/// The store with the shards of every call stack merged across CPUs.
pub open spec fn merged_stats(stats: Map<UnpackedHistogramKey, Histogram>) -> Map<
    ReducedEventKey,
    HistogramView,
> {
    Map::new(
        |stack: ReducedEventKey| has_shard(stats, stack),
        |stack: ReducedEventKey| shard_sum(stats, stack, cpu_limit()),
    )
}

/// A merged record has as many counters as every record.
pub proof fn lemma_shard_sum_len(
    stats: Map<UnpackedHistogramKey, Histogram>,
    stack: ReducedEventKey,
    upto: nat,
)
    ensures
        shard_sum(stats, stack, upto).counts.len() == BUCKETS,
    decreases upto,
{
    if upto > 0 {
        lemma_shard_sum_len(stats, stack, (upto - 1) as nat);
    }
}

/// A shard that is added to the store leaves the merged record of every
/// other call stack as it was, and that of its own stack too as far as only
/// lower CPUs are merged.
pub proof fn lemma_shard_sum_unaffected(
    stats: Map<UnpackedHistogramKey, Histogram>,
    key: UnpackedHistogramKey,
    shard: Histogram,
    stack: ReducedEventKey,
    upto: nat,
)
    requires
        stack != key.reduced() || upto <= key.cpu,
        upto <= cpu_limit(),
    ensures
        shard_sum(stats.insert(key, shard), stack, upto) == shard_sum(stats, stack, upto),
    decreases upto,
{
    if upto > 0 {
        lemma_shard_sum_unaffected(stats, key, shard, stack, (upto - 1) as nat);
        assert(shard_key(stack, (upto - 1) as nat) != key);
    }
}

/// A shard that is added to the store is merged into the record of its call
/// stack, wherever its CPU number lies among those already there.
pub proof fn lemma_shard_sum_added(
    stats: Map<UnpackedHistogramKey, Histogram>,
    key: UnpackedHistogramKey,
    shard: Histogram,
    upto: nat,
)
    requires
        !stats.contains_key(key),
        key.cpu < upto <= cpu_limit(),
    ensures
        shard_sum(stats.insert(key, shard), key.reduced(), upto) == shard_sum(
            stats,
            key.reduced(),
            upto,
        ).merged(shard@),
    decreases upto,
{
    let stack = key.reduced();
    let after = stats.insert(key, shard);
    let below = shard_sum(stats, stack, (upto - 1) as nat);
    let at = shard_key(stack, (upto - 1) as nat);
    lemma_shard_sum_len(stats, stack, (upto - 1) as nat);
    if upto - 1 == key.cpu {
        lemma_shard_sum_unaffected(stats, key, shard, stack, (upto - 1) as nat);
        assert(at == key);
    } else {
        lemma_shard_sum_added(stats, key, shard, (upto - 1) as nat);
        assert(at != key);
        if stats.contains_key(at) {
            let other = stats[at]@;
            lemma_merge_associative(below, shard@, other);
            lemma_merge_commutative(shard@, other);
            lemma_merge_associative(below, other, shard@);
        }
    }
}

/// The merged record of a call stack of which the store holds no shard is
/// the zero record.
pub proof fn lemma_shard_sum_absent(
    stats: Map<UnpackedHistogramKey, Histogram>,
    stack: ReducedEventKey,
    upto: nat,
)
    requires
        !has_shard(stats, stack),
        upto <= cpu_limit(),
    ensures
        shard_sum(stats, stack, upto) == HistogramView::zero(),
    decreases upto,
{
    if upto > 0 {
        lemma_shard_sum_absent(stats, stack, (upto - 1) as nat);
        let at = shard_key(stack, (upto - 1) as nat);
        assert(at.reduced() == stack);
    }
}

/// The merged store after one more shard: the record of the shard's call
/// stack is the shard itself if the stack was not there, else the record
/// that was there with the shard merged into it; all other records stay.
pub proof fn lemma_merged_insert(
    stats: Map<UnpackedHistogramKey, Histogram>,
    key: UnpackedHistogramKey,
    shard: Histogram,
)
    requires
        !stats.contains_key(key),
    ensures
        merged_stats(stats.insert(key, shard)) == merged_stats(stats).insert(
            key.reduced(),
            if has_shard(stats, key.reduced()) {
                merged_stats(stats)[key.reduced()].merged(shard@)
            } else {
                shard@
            },
        ),
{
    let after = stats.insert(key, shard);
    let stack = key.reduced();
    let value = if has_shard(stats, stack) {
        merged_stats(stats)[stack].merged(shard@)
    } else {
        shard@
    };
    let expected = merged_stats(stats).insert(stack, value);
    assert(after.contains_key(key));
    assert forall|other: ReducedEventKey| has_shard(after, other) <==> (other == stack
        || has_shard(stats, other)) by {
        if has_shard(after, other) && other != stack {
            let k = choose|k: UnpackedHistogramKey| #[trigger]
                after.contains_key(k) && k.reduced() == other;
            assert(stats.contains_key(k));
        }
        if has_shard(stats, other) {
            let k = choose|k: UnpackedHistogramKey| #[trigger]
                stats.contains_key(k) && k.reduced() == other;
            assert(after.contains_key(k));
        }
    }
    assert forall|other: ReducedEventKey| has_shard(after, other) implies merged_stats(
        after,
    )[other] == expected[other] by {
        if other == stack {
            lemma_shard_sum_added(stats, key, shard, cpu_limit());
            if !has_shard(stats, stack) {
                lemma_shard_sum_absent(stats, stack, cpu_limit());
                lemma_merge_zero(shard@);
            }
        } else {
            lemma_shard_sum_unaffected(stats, key, shard, other, cpu_limit());
        }
    }
    assert(merged_stats(after) =~= expected);
}

/// Merging a store in which no call stack has more than one shard gives
/// every shard back as it is.
pub proof fn lemma_merge_single_cpu(
    stats: Map<UnpackedHistogramKey, Histogram>,
    key: UnpackedHistogramKey,
)
    requires
        stats.contains_key(key),
        forall|other: UnpackedHistogramKey| #[trigger]
            stats.contains_key(other) && other.reduced() == key.reduced() ==> other == key,
    ensures
        merged_stats(stats).contains_key(key.reduced()),
        merged_stats(stats)[key.reduced()] == stats[key]@,
{
    let rest = stats.remove(key);
    assert(rest.insert(key, stats[key]) =~= stats);
    assert(!has_shard(rest, key.reduced())) by {
        if has_shard(rest, key.reduced()) {
            let k = choose|k: UnpackedHistogramKey| #[trigger]
                rest.contains_key(k) && k.reduced() == key.reduced();
            assert(stats.contains_key(k));
        }
    }
    lemma_merged_insert(rest, key, stats[key]);
}

} // verus!
