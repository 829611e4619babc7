//! The collector's bookkeeping: which shards it retains, which keys it
//! reclaims, and when. The worker that owns a `Collector` reads the shared
//! tables, sleeps and symbolizes; every decision is taken here.

use crate::fx::{set_drain, set_insert, set_new, set_remove};
use crate::histogram::Histogram;
use crate::processor::EventProcessor;
use crate::resolver::ResolvedStackTrace;
use crate::schema::{lemma_words_round_trip, HistogramKey, UnpackedHistogramKey};
use rustc_hash::FxHashSet;
use vstd::prelude::*;

verus! {

/// Seconds between two sweeps of the histogram table.
pub const SWEEP_PERIOD_SECS: u64 = 1;

/// Seconds after which the queued keys are reclaimed.
pub const CLEANUP_PERIOD_SECS: u64 = 60;

/// Whether a shard is worth keeping: its sum of sizes reaches `skip_size`, or
/// its number of allocations reaches `skip_count`.
pub open spec fn is_retained(hist: Histogram, skip_size: u64, skip_count: u64) -> bool {
    hist.total >= skip_size || hist@.total_count() >= skip_count
}

/// Whether the queued keys are due for reclamation: more than 60 seconds
/// have passed since the last one.
pub open spec fn is_cleanup_due(secs: u64, subsec_nanos: u32) -> bool {
    secs > CLEANUP_PERIOD_SECS || (secs == CLEANUP_PERIOD_SECS && subsec_nanos > 0)
}

pub fn cleanup_due(secs: u64, subsec_nanos: u32) -> (due: bool)
    ensures
        due == is_cleanup_due(secs, subsec_nanos),
{
    secs > CLEANUP_PERIOD_SECS || (secs == CLEANUP_PERIOD_SECS && subsec_nanos > 0)
}

/// What became of one shard that the worker showed to the collector.
#[derive(Debug, Clone, Copy, PartialEq, Eq, Structural)]
pub enum Observation {
    /// The shard is below both thresholds and was not stored.
    Skipped,
    /// The run was canceled: the shard was not stored, and the worker stops.
    Canceled,
    /// The shard was stored, and its stack is resolved already.
    Stored,
    /// The shard was stored; its stack is still to be resolved.
    Unresolved,
}

/// The two words of a key side by side.
#[verifier::opaque]
pub open spec fn key_slot(words: (u64, u64)) -> u128 {
    (words.0 as u128 * 0x1_0000_0000_0000_0000 + words.1 as u128) as u128
}

/// The two words that lie side by side in a slot.
#[verifier::opaque]
pub open spec fn slot_words(slot: u128) -> (u64, u64) {
    ((slot / 0x1_0000_0000_0000_0000) as u64, (slot % 0x1_0000_0000_0000_0000) as u64)
}

/// Words are found again from their slot, and a slot from its words.
pub proof fn lemma_key_slot_round_trip(words: (u64, u64), slot: u128)
    ensures
        slot_words(key_slot(words)) == words,
        key_slot(slot_words(slot)) == slot,
{
    reveal(key_slot);
    reveal(slot_words);
}

pub struct Collector {
    processor: EventProcessor,
    keys_to_drop: FxHashSet<u128>,
    skip_size: u64,
    skip_count: u64,
    live: bool,
}

impl Collector {
    /// The store is in order.
    pub closed spec fn wf(self) -> bool {
        self.processor.wf()
    }

    /// What was stored so far.
    pub closed spec fn processor(self) -> EventProcessor {
        self.processor
    }

    /// The keys that are queued for reclamation.
    pub closed spec fn queued(self) -> Set<HistogramKey> {
        Set::new(|key: HistogramKey| self.keys_to_drop@.contains(key_slot(key.words())))
    }

    /// The two thresholds: of the sum of sizes, and of the number of
    /// allocations.
    pub closed spec fn thresholds(self) -> (u64, u64) {
        (self.skip_size, self.skip_count)
    }

    /// Whether a shard of the key under way was retained.
    pub closed spec fn live(self) -> bool {
        self.live
    }

    /// A collector with an empty store and nothing queued, which retains the
    /// shards whose sum of sizes reaches `skip_size` or whose number of
    /// allocations reaches `skip_count`.
    pub fn new(skip_size: u64, skip_count: u64) -> (collector: Self)
        ensures
            collector.wf(),
            collector.thresholds() == (skip_size, skip_count),
            collector.queued() == Set::<HistogramKey>::empty(),
            collector.processor().stats() == Map::<UnpackedHistogramKey, Histogram>::empty(),
            collector.processor().traces() == Map::<u32, ResolvedStackTrace>::empty(),
            !collector.live(),
    {
        let collector = Collector {
            processor: EventProcessor::new(),
            keys_to_drop: set_new(),
            skip_size,
            skip_count,
            live: false,
        };
        assert(collector.queued() =~= Set::<HistogramKey>::empty());
        collector
    }

    /// Whether the collector keeps a shard.
    pub fn retains(&self, hist: &Histogram) -> (kept: bool)
        ensures
            kept == is_retained(*hist, self.thresholds().0, self.thresholds().1),
    {
        !(hist.total < self.skip_size && hist.total_count() < self.skip_count)
    }

    /// Starts on the shards of the next key of a sweep: none of them was
    /// retained yet.
    pub fn begin_key(&mut self)
        ensures
            !final(self).live(),
            final(self).wf() == old(self).wf(),
            final(self).processor() == old(self).processor(),
            final(self).queued() == old(self).queued(),
            final(self).thresholds() == old(self).thresholds(),
    {
        self.live = false;
    }

    /// Takes one per-CPU shard of the key under way. A shard below both
    /// thresholds is skipped. A retained shard marks the key as live; it is
    /// stored over the snapshot held for its key and CPU unless the run was
    /// canceled, and the answer says whether its stack is still to be
    /// resolved.
    pub fn observe(&mut self, key: UnpackedHistogramKey, shard: &Histogram, canceled: bool) -> (seen:
        Observation)
        requires
            old(self).wf(),
        ensures
            final(self).wf(),
            final(self).queued() == old(self).queued(),
            final(self).thresholds() == old(self).thresholds(),
            final(self).processor().traces() == old(self).processor().traces(),
            seen == observation_of(*old(self), key, *shard, canceled),
            final(self).live() == (old(self).live() || seen != Observation::Skipped),
            final(self).processor().stats() == if seen == Observation::Stored || seen
                == Observation::Unresolved {
                old(self).processor().stats().insert(key, *shard)
            } else {
                old(self).processor().stats()
            },
    {
        if !self.retains(shard) {
            return Observation::Skipped;
        }
        self.live = true;
        if canceled {
            return Observation::Canceled;
        }
        if self.processor.process(key, shard) {
            Observation::Unresolved
        } else {
            Observation::Stored
        }
    }

    /// Caches the symbolized stack of a stack id, unless one is cached
    /// already.
    pub fn resolved(&mut self, stack_id: u32, trace: ResolvedStackTrace) -> (cached: bool)
        requires
            old(self).wf(),
        ensures
            final(self).wf(),
            final(self).queued() == old(self).queued(),
            final(self).thresholds() == old(self).thresholds(),
            final(self).live() == old(self).live(),
            final(self).processor().stats() == old(self).processor().stats(),
            cached == !old(self).processor().traces().contains_key(stack_id),
            final(self).processor().traces() == if cached {
                old(self).processor().traces().insert(stack_id, trace)
            } else {
                old(self).processor().traces()
            },
    {
        self.processor.cache_trace(stack_id, trace)
    }

    /// Ends the shards of a key: a key of which no shard was retained on any
    /// CPU is queued for reclamation, a live one is taken off the queue.
    pub fn end_key(&mut self, key: HistogramKey)
        ensures
            final(self).wf() == old(self).wf(),
            final(self).processor() == old(self).processor(),
            final(self).thresholds() == old(self).thresholds(),
            final(self).live() == old(self).live(),
            final(self).queued() == if old(self).live() {
                old(self).queued().remove(key)
            } else {
                old(self).queued().insert(key)
            },
    {
        let words = key.to_words();
        let slot = slot_of(words);
        if self.live {
            set_remove(&mut self.keys_to_drop, &slot);
        } else {
            set_insert(&mut self.keys_to_drop, slot);
        }
        proof {
            assert forall|other: HistogramKey| other != key implies key_slot(other.words())
                != slot by {
                lemma_key_slot_round_trip(other.words(), 0);
                lemma_key_slot_round_trip(key.words(), 0);
                if other.words() == key.words() {
                    lemma_words_round_trip(key, other);
                }
            }
            if old(self).live() {
                assert(self.queued() =~= old(self).queued().remove(key));
            } else {
                assert(self.queued() =~= old(self).queued().insert(key));
            }
        }
    }
}

/// What `observe` answers for a shard.
pub open spec fn observation_of(
    collector: Collector,
    key: UnpackedHistogramKey,
    shard: Histogram,
    canceled: bool,
) -> Observation {
    if !is_retained(shard, collector.thresholds().0, collector.thresholds().1) {
        Observation::Skipped
    } else if canceled {
        Observation::Canceled
    } else if collector.processor().traces().contains_key(key.stack_id) {
        Observation::Stored
    } else {
        Observation::Unresolved
    }
}

fn slot_of(words: (u64, u64)) -> (slot: u128)
    ensures
        slot == key_slot(words),
{
    reveal(key_slot);
    words.0 as u128 * 0x1_0000_0000_0000_0000 + words.1 as u128
}


/// Whether `keys` lists every key of `queued` once.
pub open spec fn lists_queued(keys: Seq<HistogramKey>, queued: Set<HistogramKey>) -> bool {
    &&& keys.no_duplicates()
    &&& forall|key: HistogramKey| keys.contains(key) <==> queued.contains(key)
}

impl Collector {
    /// Empties the queue and hands out the keys that were in it, for the
    /// worker to delete them from the histogram table and their stack ids
    /// from the stack-trace table.
    pub fn drain_queued(&mut self) -> (keys: Vec<HistogramKey>)
        ensures
            final(self).wf() == old(self).wf(),
            final(self).processor() == old(self).processor(),
            final(self).thresholds() == old(self).thresholds(),
            final(self).live() == old(self).live(),
            final(self).queued() == Set::<HistogramKey>::empty(),
            lists_queued(keys@, old(self).queued()),
    {
        let slots = set_drain(&mut self.keys_to_drop);
        let mut keys: Vec<HistogramKey> = Vec::new();
        let mut i: usize = 0;
        while i < slots.len()
            invariant
                i <= slots@.len(),
                keys@.len() == i,
                forall|a: int| 0 <= a < i ==> key_slot((#[trigger] keys@[a]).words()) == slots@[a],
            decreases slots@.len() - i,
        {
            let slot = slots[i];
            proof {
                reveal(slot_words);
                lemma_key_slot_round_trip((0, 0), slot);
            }
            let key = HistogramKey::from_words(
                (slot / 0x1_0000_0000_0000_0000) as u64,
                (slot % 0x1_0000_0000_0000_0000) as u64,
            );
            keys.push(key);
            i = i + 1;
        }
        proof {
            assert(self.queued() =~= Set::<HistogramKey>::empty());
            assert forall|a: int, b: int| 0 <= a < keys@.len() && 0 <= b < keys@.len() && a
                != b implies keys@[a] != keys@[b] by {
                assert(slots@[a] != slots@[b]);
            }
            assert forall|key: HistogramKey| keys@.contains(key) <==> old(self).queued().contains(
                key,
            ) by {
                if keys@.contains(key) {
                    let a = choose|a: int| 0 <= a < keys@.len() && keys@[a] == key;
                    assert(slots@.contains(slots@[a]));
                }
                if old(self).queued().contains(key) {
                    assert(slots@.contains(key_slot(key.words())));
                    let a = choose|a: int| 0 <= a < slots@.len() && slots@[a] == key_slot(
                        key.words(),
                    );
                    lemma_key_slot_round_trip(key.words(), 0);
                    lemma_key_slot_round_trip(keys@[a].words(), 0);
                    lemma_words_round_trip(key, keys@[a]);
                    assert(keys@[a] == key);
                }
            }
        }
        keys
    }

    /// Ends the collection and hands out what was stored.
    pub fn finish(self) -> (processor: EventProcessor)
        ensures
            processor == self.processor(),
    {
        self.processor
    }

    /// What was stored so far.
    pub fn stored(&self) -> (processor: &EventProcessor)
        ensures
            *processor == self.processor(),
    {
        &self.processor
    }
}

} // verus!
