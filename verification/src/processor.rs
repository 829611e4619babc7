//! The collector's store: the latest snapshot of every per-CPU histogram and
//! the symbolized stack of every stack id seen.

use crate::fx::{map_entries, map_get, map_insert, map_with_capacity};
use crate::histogram::{Histogram, HistogramView};
use crate::merge::{lemma_merged_insert, merged_stats};
use crate::resolver::ResolvedStackTrace;
use crate::schema::{ReducedEventKey, UnpackedHistogramKey};
use rustc_hash::FxHashMap;
use vstd::prelude::*;

verus! {

/// The map slot of a per-CPU key: its three fields side by side.
#[verifier::opaque]
pub open spec fn stat_slot(key: UnpackedHistogramKey) -> u128 {
    (key.pid as u128 * 0x1_0000_0000_0000_0000 + key.stack_id as u128 * 0x1_0000_0000
        + key.cpu as u128) as u128
}

/// The per-CPU key of a map slot.
#[verifier::opaque]
pub open spec fn slot_key(slot: u128) -> UnpackedHistogramKey {
    UnpackedHistogramKey {
        pid: (slot / 0x1_0000_0000_0000_0000 % 0x1_0000_0000) as u32,
        stack_id: (slot / 0x1_0000_0000 % 0x1_0000_0000) as u32,
        cpu: (slot % 0x1_0000_0000) as u32,
    }
}

/// The latest snapshot of every per-CPU histogram that the collector
/// retained, and the symbolized stack of every stack id that it resolved.
#[derive(Clone, Debug)]
pub struct EventProcessor {
    allocations_stats: FxHashMap<u128, Histogram>,
    resolved_traces: FxHashMap<u32, ResolvedStackTrace>,
}

fn slot_for(key: UnpackedHistogramKey) -> (slot: u128)
    ensures
        slot == stat_slot(key),
{
    reveal(stat_slot);
    key.pid as u128 * 0x1_0000_0000_0000_0000 + key.stack_id as u128 * 0x1_0000_0000
        + key.cpu as u128
}

impl EventProcessor {
    /// Every slot of the store stands for a key.
    pub closed spec fn wf(self) -> bool {
        forall|slot: u128| #[trigger]
            self.allocations_stats@.contains_key(slot) ==> stat_slot(slot_key(slot)) == slot
    }

    /// The latest snapshot of each per-CPU histogram.
    pub closed spec fn stats(self) -> Map<UnpackedHistogramKey, Histogram> {
        Map::new(
            |key: UnpackedHistogramKey| self.allocations_stats@.contains_key(stat_slot(key)),
            |key: UnpackedHistogramKey| self.allocations_stats@[stat_slot(key)],
        )
    }

    /// The symbolized stack of each stack id that was resolved.
    pub closed spec fn traces(self) -> Map<u32, ResolvedStackTrace> {
        self.resolved_traces@
    }

    pub fn new() -> (processor: Self)
        ensures
            processor.wf(),
            processor.stats() == Map::<UnpackedHistogramKey, Histogram>::empty(),
            processor.traces() == Map::<u32, ResolvedStackTrace>::empty(),
    {
        let processor = EventProcessor {
            allocations_stats: map_with_capacity(1024),
            resolved_traces: map_with_capacity(0),
        };
        assert(processor.stats() =~= Map::<UnpackedHistogramKey, Histogram>::empty());
        assert(processor.traces() =~= Map::<u32, ResolvedStackTrace>::empty());
        processor
    }

    /// Stores the latest snapshot of one per-CPU histogram over the one held
    /// for its key, and says whether the key's stack is still to be resolved.
    pub fn process(&mut self, key: UnpackedHistogramKey, event: &Histogram) -> (unresolved: bool)
        requires
            old(self).wf(),
        ensures
            final(self).wf(),
            final(self).stats() == old(self).stats().insert(key, *event),
            final(self).traces() == old(self).traces(),
            unresolved == !old(self).traces().contains_key(key.stack_id),
    {
        let slot = slot_for(key);
        map_insert(&mut self.allocations_stats, slot, *event);
        let unresolved = map_get(&self.resolved_traces, &key.stack_id).is_none();
        proof {
            lemma_slot_round_trip(key);
            assert forall|other: UnpackedHistogramKey| other != key implies stat_slot(other)
                != slot by {
                lemma_slot_round_trip(other);
            }
            assert(self.stats() =~= old(self).stats().insert(key, *event));
        }
        unresolved
    }
}

/// A key is found again from its slot.
pub proof fn lemma_slot_round_trip(key: UnpackedHistogramKey)
    ensures
        slot_key(stat_slot(key)) == key,
{
    reveal(stat_slot);
    reveal(slot_key);
}


/// The slot of a call stack in the merged store.
#[verifier::opaque]
pub open spec fn stack_slot(stack: ReducedEventKey) -> u64 {
    (stack.pid as u64 * 0x1_0000_0000 + stack.stack_id as u64) as u64
}

/// The call stack of a slot of the merged store.
#[verifier::opaque]
pub open spec fn slot_stack(slot: u64) -> ReducedEventKey {
    ReducedEventKey {
        pid: (slot / 0x1_0000_0000) as u32,
        stack_id: (slot % 0x1_0000_0000) as u32,
    }
}

/// A call stack is found again from its slot, and a slot from its stack.
pub proof fn lemma_stack_slot_round_trip(stack: ReducedEventKey, slot: u64)
    ensures
        slot_stack(stack_slot(stack)) == stack,
        stack_slot(slot_stack(slot)) == slot,
{
    reveal(stack_slot);
    reveal(slot_stack);
}

/// The slot of a per-CPU key without its last 32 bits is the slot of the
/// key's call stack.
pub proof fn lemma_slot_reduced(slot: u128)
    requires
        stat_slot(slot_key(slot)) == slot,
    ensures
        slot / 0x1_0000_0000 == stack_slot(slot_key(slot).reduced()),
{
    reveal(stat_slot);
    reveal(slot_key);
    reveal(stack_slot);
}

/// The merged store that a map from slots to records stands for.
pub open spec fn merged_view(by_slot: Map<u64, Histogram>) -> Map<ReducedEventKey, HistogramView> {
    Map::new(
        |stack: ReducedEventKey| by_slot.contains_key(stack_slot(stack)),
        |stack: ReducedEventKey| by_slot[stack_slot(stack)]@,
    )
}

/// The store that holds the first `n` of the listed shards.
pub open spec fn listed_stats(entries: Seq<(u128, Histogram)>, n: nat) -> Map<
    UnpackedHistogramKey,
    Histogram,
>
    decreases n,
{
    if n == 0 {
        Map::empty()
    } else {
        listed_stats(entries, (n - 1) as nat).insert(
            slot_key(entries[n - 1].0),
            entries[n - 1].1,
        )
    }
}

/// A store of listed shards holds a key exactly if one of them has it.
pub proof fn lemma_listed_stats(entries: Seq<(u128, Histogram)>, n: nat, key: UnpackedHistogramKey)
    requires
        n <= entries.len(),
        forall|i: int, j: int|
            0 <= i < j < entries.len() ==> #[trigger] entries[i].0 != #[trigger] entries[j].0,
        forall|i: int|
            0 <= i < entries.len() ==> stat_slot(slot_key(#[trigger] entries[i].0)) == entries[i].0,
    ensures
        listed_stats(entries, n).contains_key(key) <==> exists|i: int|
            0 <= i < n && slot_key(#[trigger] entries[i].0) == key,
        forall|i: int|
            0 <= i < n && slot_key(#[trigger] entries[i].0) == key ==> listed_stats(
                entries,
                n,
            )[key] == entries[i].1,
    decreases n,
{
    if n > 0 {
        lemma_listed_stats(entries, (n - 1) as nat, key);
        let last = entries[n - 1].0;
        if slot_key(last) == key {
            assert forall|i: int| 0 <= i < n && slot_key(#[trigger] entries[i].0) == key implies i
                == n - 1 by {
                if i < n - 1 {
                    assert(entries[i].0 != entries[n - 1].0);
                }
            }
        }
    }
}

/// Whether `entries` lists every record of `merged` once.
pub open spec fn lists_merged(
    entries: Seq<(ReducedEventKey, Histogram)>,
    merged: Map<ReducedEventKey, HistogramView>,
) -> bool {
    &&& forall|i: int|
        0 <= i < entries.len() ==> merged.contains_key(#[trigger] entries[i].0)
            && merged[entries[i].0] == entries[i].1@
    &&& forall|i: int, j: int|
        0 <= i < j < entries.len() ==> #[trigger] entries[i].0 != #[trigger] entries[j].0
    &&& forall|stack: ReducedEventKey| #[trigger]
        merged.contains_key(stack) ==> exists|i: int|
            0 <= i < entries.len() && #[trigger] entries[i].0 == stack
}


impl EventProcessor {
    /// Caches the symbolized stack of a stack id, unless one is cached
    /// already: a stack is resolved at most once.
    pub fn cache_trace(&mut self, stack_id: u32, trace: ResolvedStackTrace) -> (cached: bool)
        requires
            old(self).wf(),
        ensures
            final(self).wf(),
            final(self).stats() == old(self).stats(),
            cached == !old(self).traces().contains_key(stack_id),
            final(self).traces() == if cached {
                old(self).traces().insert(stack_id, trace)
            } else {
                old(self).traces()
            },
    {
        if map_get(&self.resolved_traces, &stack_id).is_some() {
            return false;
        }
        map_insert(&mut self.resolved_traces, stack_id, trace);
        true
    }

    /// The store with the shards of every call stack merged across CPUs, as
    /// a list with one entry for each call stack, in no particular order.
    pub fn merge(&self) -> (entries: Vec<(ReducedEventKey, Histogram)>)
        requires
            self.wf(),
        ensures
            lists_merged(entries@, merged_stats(self.stats())),
            entries@.len() == merged_stats(self.stats()).dom().len(),
    {
        let shards = map_entries(&self.allocations_stats);
        let mut by_stack: FxHashMap<u64, Histogram> = map_with_capacity(shards.len());
        assert(merged_view(by_stack@) =~= merged_stats(listed_stats(shards@, 0)));
        let mut i: usize = 0;
        while i < shards.len()
            invariant
                i <= shards@.len(),
                forall|a: int, b: int|
                    0 <= a < b < shards@.len() ==> #[trigger] shards@[a].0 != #[trigger] shards@[b].0,
                forall|a: int|
                    0 <= a < shards@.len() ==> stat_slot(slot_key(#[trigger] shards@[a].0))
                        == shards@[a].0,
                merged_view(by_stack@) == merged_stats(listed_stats(shards@, i as nat)),
            decreases shards@.len() - i,
        {
            let (slot, stat) = shards[i];
            let ghost key = slot_key(slot);
            let ghost seen = listed_stats(shards@, i as nat);
            let ghost before = by_stack@;
            proof {
                lemma_slot_reduced(slot);
                lemma_listed_stats(shards@, i as nat, key);
                if seen.contains_key(key) {
                    let a = choose|a: int| 0 <= a < i && slot_key(#[trigger] shards@[a].0) == key;
                    assert(shards@[a].0 != shards@[i as int].0);
                }
                lemma_merged_insert(seen, key, stat);
            }
            let stack: u64 = (slot / 0x1_0000_0000) as u64;
            let merged = match map_get(&by_stack, &stack) {
                Some(held) => {
                    let mut sum = *held;
                    sum.merge(&stat);
                    sum
                },
                None => stat,
            };
            map_insert(&mut by_stack, stack, merged);
            i = i + 1;
            proof {
                assert(merged_stats(seen).contains_key(key.reduced()) == before.contains_key(
                    stack,
                ));
                assert forall|other: ReducedEventKey| other != key.reduced() implies stack_slot(
                    other,
                ) != stack by {
                    lemma_stack_slot_round_trip(other, 0);
                    lemma_stack_slot_round_trip(key.reduced(), 0);
                }
                assert(merged_view(by_stack@) =~= merged_stats(listed_stats(shards@, i as nat)));
            }
        }
        proof {
            let listed = listed_stats(shards@, shards@.len());
            assert forall|key: UnpackedHistogramKey|
                (#[trigger] listed.dom().contains(key)) == self.stats().dom().contains(key) && (
                self.stats().contains_key(key) ==> listed[key] == self.stats()[key]) by {
                lemma_listed_stats(shards@, shards@.len(), key);
                lemma_slot_round_trip(key);
                if self.stats().contains_key(key) {
                    let a = choose|a: int|
                        0 <= a < shards@.len() && #[trigger] shards@[a].0 == stat_slot(key);
                    assert(slot_key(shards@[a].0) == key);
                }
            }
            assert(listed =~= self.stats());
        }
        let stacks = map_entries(&by_stack);
        let mut entries: Vec<(ReducedEventKey, Histogram)> = Vec::new();
        let mut j: usize = 0;
        while j < stacks.len()
            invariant
                j <= stacks@.len(),
                entries@.len() == j,
                forall|a: int|
                    0 <= a < j ==> (#[trigger] entries@[a]).0 == slot_stack(stacks@[a].0)
                        && entries@[a].1 == stacks@[a].1,
            decreases stacks@.len() - j,
        {
            let (slot, hist) = stacks[j];
            reveal(slot_stack);
            let stack = ReducedEventKey {
                pid: (slot / 0x1_0000_0000) as u32,
                stack_id: (slot % 0x1_0000_0000) as u32,
            };
            entries.push((stack, hist));
            j = j + 1;
        }
        proof {
            let merged = merged_stats(self.stats());
            assert forall|a: int| 0 <= a < entries@.len() implies merged.contains_key(
                #[trigger] entries@[a].0,
            ) && merged[entries@[a].0] == entries@[a].1@ by {
                lemma_stack_slot_round_trip(entries@[a].0, stacks@[a].0);
                assert(by_stack@.contains_key(stacks@[a].0));
                assert(merged_view(by_stack@).contains_key(entries@[a].0));
            }
            assert forall|a: int, b: int| 0 <= a < b < entries@.len() implies #[trigger] entries@[a].0
                != #[trigger] entries@[b].0 by {
                lemma_stack_slot_round_trip(entries@[a].0, stacks@[a].0);
                lemma_stack_slot_round_trip(entries@[b].0, stacks@[b].0);
                assert(stacks@[a].0 != stacks@[b].0);
            }
            assert forall|stack: ReducedEventKey| #[trigger]
                merged.contains_key(stack) implies exists|a: int|
                0 <= a < entries@.len() && #[trigger] entries@[a].0 == stack by {
                assert(merged_view(by_stack@).contains_key(stack));
                let a = choose|a: int|
                    0 <= a < stacks@.len() && #[trigger] stacks@[a].0 == stack_slot(stack);
                lemma_stack_slot_round_trip(stack, 0);
                assert(entries@[a].0 == stack);
            }
            lemma_listing_len(entries@, merged);
        }
        entries
    }
}


/// Whether `entries` lists every shard of `stats` once.
pub open spec fn lists_shards(
    entries: Seq<(UnpackedHistogramKey, Histogram)>,
    stats: Map<UnpackedHistogramKey, Histogram>,
) -> bool {
    &&& forall|i: int|
        0 <= i < entries.len() ==> stats.contains_key(#[trigger] entries[i].0)
            && stats[entries[i].0] == entries[i].1
    &&& forall|i: int, j: int|
        0 <= i < j < entries.len() ==> #[trigger] entries[i].0 != #[trigger] entries[j].0
    &&& forall|key: UnpackedHistogramKey| #[trigger]
        stats.contains_key(key) ==> exists|i: int|
            0 <= i < entries.len() && #[trigger] entries[i].0 == key
}

impl EventProcessor {
    /// The symbolized stack of a stack id, if it was resolved.
    pub fn trace(&self, stack_id: u32) -> (found: Option<&ResolvedStackTrace>)
        ensures
            match found {
                Some(trace) => self.traces().contains_key(stack_id) && *trace
                    == self.traces()[stack_id],
                None => !self.traces().contains_key(stack_id),
            },
    {
        map_get(&self.resolved_traces, &stack_id)
    }

    /// The latest snapshot of a per-CPU histogram, if one was stored.
    pub fn shard(&self, key: UnpackedHistogramKey) -> (found: Option<Histogram>)
        ensures
            match found {
                Some(hist) => self.stats().contains_key(key) && hist == self.stats()[key],
                None => !self.stats().contains_key(key),
            },
    {
        let slot = slot_for(key);
        match map_get(&self.allocations_stats, &slot) {
            Some(hist) => Some(*hist),
            None => None,
        }
    }

    /// Every stored shard with its key, in no particular order.
    pub fn shards(&self) -> (entries: Vec<(UnpackedHistogramKey, Histogram)>)
        requires
            self.wf(),
        ensures
            lists_shards(entries@, self.stats()),
    {
        let slots = map_entries(&self.allocations_stats);
        let mut entries: Vec<(UnpackedHistogramKey, Histogram)> = Vec::new();
        let mut i: usize = 0;
        while i < slots.len()
            invariant
                i <= slots@.len(),
                entries@.len() == i,
                forall|a: int|
                    0 <= a < slots@.len() ==> stat_slot(slot_key(#[trigger] slots@[a].0))
                        == slots@[a].0,
                forall|a: int|
                    0 <= a < i ==> (#[trigger] entries@[a]).0 == slot_key(slots@[a].0)
                        && entries@[a].1 == slots@[a].1,
            decreases slots@.len() - i,
        {
            let (slot, hist) = slots[i];
            proof {
                reveal(slot_key);
                reveal(stat_slot);
            }
            let key = UnpackedHistogramKey {
                pid: (slot / 0x1_0000_0000_0000_0000 % 0x1_0000_0000) as u32,
                stack_id: (slot / 0x1_0000_0000 % 0x1_0000_0000) as u32,
                cpu: (slot % 0x1_0000_0000) as u32,
            };
            entries.push((key, hist));
            i = i + 1;
        }
        proof {
            assert forall|a: int| 0 <= a < entries@.len() implies self.stats().contains_key(
                #[trigger] entries@[a].0,
            ) && self.stats()[entries@[a].0] == entries@[a].1 by {
                assert(self.allocations_stats@.contains_key(slots@[a].0));
            }
            assert forall|a: int, b: int| 0 <= a < b < entries@.len() implies #[trigger] entries@[a].0
                != #[trigger] entries@[b].0 by {
                assert(slots@[a].0 != slots@[b].0);
            }
            assert forall|key: UnpackedHistogramKey| #[trigger]
                self.stats().contains_key(key) implies exists|a: int|
                0 <= a < entries@.len() && #[trigger] entries@[a].0 == key by {
                let a = choose|a: int|
                    0 <= a < slots@.len() && #[trigger] slots@[a].0 == stat_slot(key);
                lemma_slot_round_trip(key);
                assert(entries@[a].0 == key);
            }
        }
        entries
    }
}


/// A listing has as many entries as the merged store has call stacks.
pub proof fn lemma_listing_len(
    entries: Seq<(ReducedEventKey, Histogram)>,
    merged: Map<ReducedEventKey, HistogramView>,
)
    requires
        lists_merged(entries, merged),
    ensures
        merged.dom().finite(),
        merged.dom().len() == entries.len(),
{
    let stacks = Seq::new(entries.len(), |i: int| entries[i].0);
    assert(stacks.no_duplicates());
    assert forall|stack: ReducedEventKey| stacks.to_set().contains(stack) == merged.dom().contains(
        stack,
    ) by {
        if merged.contains_key(stack) {
            let i = choose|i: int| 0 <= i < entries.len() && #[trigger] entries[i].0 == stack;
            assert(stacks[i] == stack);
        }
        if stacks.to_set().contains(stack) {
            let i = choose|i: int| 0 <= i < stacks.len() && stacks[i] == stack;
            assert(merged.contains_key(entries[i].0));
        }
    }
    assert(stacks.to_set() =~= merged.dom());
    stacks.unique_seq_to_set();
}

} // verus!
