//! Fixed-layout records exchanged between the probe and the collector.

use vstd::prelude::*;

verus! {

/// Index of the exclusive lower size bound in the configuration array.
pub const MIN_ALLOC_INDEX: u32 = 0;

/// Index of the exclusive upper size bound in the configuration array.
pub const MAX_ALLOC_INDEX: u32 = 1;

/// Index of the per-CPU sample counter in the configuration array.
pub const COUNT_INDEX: u32 = 2;

/// Index of the sampling period in the configuration array.
pub const SAMPLE_EVERY_INDEX: u32 = 3;

/// Index of the reserved allocation-argument slot in the configuration array.
pub const FUNCTION_INFO_INDEX: u32 = 4;

/// Number of cells in the configuration array.
pub const CONFIG_ENTRIES: usize = 5;

/// Identity of one per-CPU histogram: process, call stack and CPU.
#[derive(Clone, Debug, Copy, Hash, PartialEq, Eq, Structural)]
pub struct UnpackedHistogramKey {
    pub pid: u32,
    pub stack_id: u32,
    pub cpu: u32,
}

/// Identity of a call stack within a process, with the CPU dropped.
#[derive(Debug, Clone, Copy, Hash, PartialEq, Eq, Structural)]
pub struct ReducedEventKey {
    pub pid: u32,
    pub stack_id: u32,
}

impl UnpackedHistogramKey {
    /// The key with its CPU dropped.
    pub open spec fn reduced(self) -> ReducedEventKey {
        ReducedEventKey { pid: self.pid, stack_id: self.stack_id }
    }

    pub fn as_reduced(&self) -> (r: ReducedEventKey)
        ensures
            r == self.reduced(),
    {
        ReducedEventKey { pid: self.pid, stack_id: self.stack_id }
    }
}

/// The first word of a packed key: the pid in the upper half, the stack id
/// in the lower half.
pub open spec fn pack_pid_stack(pid: u32, stack_id: u32) -> u64 {
    (pid as u64 * 0x1_0000_0000 + stack_id as u64) as u64
}

/// The three fields that two stored words carry.
pub open spec fn unpack_words(words: (u64, u64)) -> UnpackedHistogramKey {
    UnpackedHistogramKey {
        pid: (words.0 / 0x1_0000_0000) as u32,
        stack_id: (words.0 % 0x1_0000_0000) as u32,
        cpu: (words.1 % 0x1_0000_0000) as u32,
    }
}

/// A key as it lies in the shared table: two 64-bit words without padding.
#[derive(Clone, Debug, Copy, Hash, PartialEq, Eq, Structural)]
pub struct HistogramKey {
    pid_stack: u64,
    cpu: u64,
}

impl View for HistogramKey {
    type V = UnpackedHistogramKey;

    /// The three fields that the two words carry. The upper half of the
    /// second word is not part of the key's meaning.
    open spec fn view(&self) -> UnpackedHistogramKey {
        unpack_words(self.words())
    }
}

impl HistogramKey {
    /// The two words as they are stored.
    pub closed spec fn words(self) -> (u64, u64) {
        (self.pid_stack, self.cpu)
    }

    /// The key that `new` builds.
    pub open spec fn packed(pid: u32, stack_id: u32, cpu: u32) -> (u64, u64) {
        (pack_pid_stack(pid, stack_id), cpu as u64)
    }

    pub fn new(pid: u32, stack_id: u32, cpu: u32) -> (key: Self)
        ensures
            key.words() == Self::packed(pid, stack_id, cpu),
            key@ == (UnpackedHistogramKey { pid, stack_id, cpu }),
    {
        let pid_stack: u64 = ((pid as u64) << 32) | (stack_id as u64);
        assert(((pid as u64) << 32) | (stack_id as u64) == pid as u64 * 0x1_0000_0000
            + stack_id as u64) by (bit_vector);
        HistogramKey { pid_stack, cpu: cpu as u64 }
    }

    pub fn into_parts(&self) -> (parts: UnpackedHistogramKey)
        ensures
            parts == self@,
    {
        let word: u64 = self.pid_stack;
        let lane: u64 = self.cpu;
        assert((word >> 32) == word / 0x1_0000_0000) by (bit_vector);
        assert((word & 0xffff_ffff) == word % 0x1_0000_0000) by (bit_vector);
        assert((lane & 0xffff_ffff) == lane % 0x1_0000_0000) by (bit_vector);
        let pid: u32 = (word >> 32) as u32;
        let stack_id: u32 = (word & 0xffff_ffff) as u32;
        UnpackedHistogramKey { pid, stack_id, cpu: (lane & 0xffff_ffff) as u32 }
    }
}


impl HistogramKey {
    /// The key that two words read from the shared table stand for.
    pub fn from_words(pid_stack: u64, cpu: u64) -> (key: Self)
        ensures
            key.words() == (pid_stack, cpu),
    {
        HistogramKey { pid_stack, cpu }
    }

    /// The two words to write to the shared table.
    pub fn to_words(&self) -> (words: (u64, u64))
        ensures
            words == self.words(),
    {
        (self.pid_stack, self.cpu)
    }
}

/// Packing three fields and taking them apart again gives the same fields.
pub proof fn lemma_pack_unpack(pid: u32, stack_id: u32, cpu: u32)
    ensures
        unpack_words(HistogramKey::packed(pid, stack_id, cpu)) == (UnpackedHistogramKey {
            pid,
            stack_id,
            cpu,
        }),
{
}

/// Two keys with the same words are the same key, so a key that is written
/// to the table as its words and read back carries the same three fields.
pub proof fn lemma_words_round_trip(written: HistogramKey, read: HistogramKey)
    requires
        read.words() == written.words(),
    ensures
        read == written,
        read@ == written@,
{
}

/// Keys built from different fields differ in their words.
pub proof fn lemma_packed_injective(a: UnpackedHistogramKey, b: UnpackedHistogramKey)
    requires
        HistogramKey::packed(a.pid, a.stack_id, a.cpu) == HistogramKey::packed(
            b.pid,
            b.stack_id,
            b.cpu,
        ),
    ensures
        a == b,
{
    lemma_pack_unpack(a.pid, a.stack_id, a.cpu);
    lemma_pack_unpack(b.pid, b.stack_id, b.cpu);
}

} // verus!
