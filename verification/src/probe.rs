//! The decisions of the in-kernel probe: sampling, the size filter, key
//! formation and the update of one histogram slot. The probe itself reads
//! registers and kernel tables; it hands what it read to these functions.

use crate::histogram::{Histogram, HistogramView};
use crate::schema::{
    HistogramKey, UnpackedHistogramKey, CONFIG_ENTRIES, COUNT_INDEX, FUNCTION_INFO_INDEX,
    MAX_ALLOC_INDEX, MIN_ALLOC_INDEX, SAMPLE_EVERY_INDEX,
};
use vstd::prelude::*;

verus! {

/// What the probe finds in its CPU's lane of the configuration array. A cell
/// that the lookup did not return is `None`.
#[derive(Clone, Copy, Debug, PartialEq, Eq, Structural)]
pub struct ProbeConfig {
    /// Exclusive lower bound of the recorded sizes.
    pub min_alloc: Option<u64>,
    /// Exclusive upper bound of the recorded sizes.
    pub max_alloc: Option<u64>,
    /// Number of calls seen on this CPU since the counter was last zero.
    pub sample_count: Option<u64>,
    /// Sampling period; zero or absent samples every call.
    pub sample_every: Option<u64>,
}

/// The counter after one more call: it wraps to zero after `u64::MAX`, so
/// that sampling goes on however long the target runs.
pub open spec fn next_count(count: u64) -> u64 {
    if count == u64::MAX {
        0
    } else {
        (count + 1) as u64
    }
}

impl ProbeConfig {
    /// Whether the sampling period and the counter are both there to count
    /// with.
    pub open spec fn counts_calls(self) -> bool {
        &&& self.sample_every matches Some(every)
        &&& every != 0
        &&& self.sample_count is Some
    }

    /// Whether the call that arrives in this state is sampled.
    pub open spec fn samples_next(self) -> bool {
        self.counts_calls() ==> next_count(self.sample_count->0) % self.sample_every->0 == 0
    }

    /// The state after one call has arrived.
    pub open spec fn after_call(self) -> ProbeConfig {
        if self.counts_calls() {
            ProbeConfig { sample_count: Some(next_count(self.sample_count->0)), ..self }
        } else {
            self
        }
    }

    /// Whether a size passes the filter. Both bounds are exclusive; an absent
    /// lower bound is 0, an absent upper bound `u64::MAX`.
    pub open spec fn accepts(self, size: u64) -> bool {
        let min = if self.min_alloc is Some { self.min_alloc->0 } else { 0 };
        let max = if self.max_alloc is Some { self.max_alloc->0 } else { u64::MAX };
        min < size < max
    }
}

/// Counts the call on this CPU and decides whether it is sampled.
pub fn should_process(config: &mut ProbeConfig) -> (proceed: bool)
    ensures
        proceed == old(config).samples_next(),
        *final(config) == old(config).after_call(),
{
    let sample_every = match config.sample_every {
        None => {
            return true;
        },
        Some(v) => v,
    };
    if sample_every == 0 {
        return true;
    }
    let count = match config.sample_count {
        None => {
            return true;
        },
        Some(c) => c,
    };
    let count = count.wrapping_add(1);
    config.sample_count = Some(count);
    count % sample_every == 0
}

/// Whether `size` lies strictly between the configured bounds.
pub fn in_range(config: &ProbeConfig, size: u64) -> (accepted: bool)
    ensures
        accepted == config.accepts(size),
{
    let min_size = match config.min_alloc {
        Some(m) => m,
        None => 0,
    };
    let max_size = match config.max_alloc {
        Some(m) => m,
        None => u64::MAX,
    };
    !(size <= min_size || size >= max_size)
}

/// What the probe does with one call of the tracked function.
#[derive(Clone, Copy, Debug, PartialEq, Eq, Structural)]
pub enum ProbeStep {
    /// The call is not recorded: it was not sampled, or its size is outside
    /// the bounds.
    Skip,
    /// The size argument could not be read.
    Fail,
    /// The call is recorded with this size: capture the stack next.
    Capture(u64),
}

/// The step that follows from a state and the size argument as read.
pub open spec fn step_of(config: ProbeConfig, size: Option<u64>) -> ProbeStep {
    if !config.samples_next() {
        ProbeStep::Skip
    } else if size is None {
        ProbeStep::Fail
    } else if !config.accepts(size->0) {
        ProbeStep::Skip
    } else {
        ProbeStep::Capture(size->0)
    }
}

/// Entry of the probe: counts the call, then decides from the sampling state
/// and the size argument (`None` if it could not be read) whether the call is
/// recorded.
pub fn try_malloc(config: &mut ProbeConfig, size: Option<u64>) -> (step: ProbeStep)
    ensures
        step == step_of(*old(config), size),
        *final(config) == old(config).after_call(),
{
    if !should_process(config) {
        return ProbeStep::Skip;
    }
    let size = match size {
        Some(s) => s,
        None => {
            return ProbeStep::Fail;
        },
    };
    if !in_range(config, size) {
        return ProbeStep::Skip;
    }
    ProbeStep::Capture(size)
}


/// The lower 32 bits of a word.
pub open spec fn low_half(word: u64) -> u32 {
    (word % 0x1_0000_0000) as u32
}

/// The key under which a sampled call is recorded: the process id is the
/// lower half of the pid/tgid word, the stack id the lower half of the
/// identifier that the kernel issued. `None` if the kernel issued none.
pub open spec fn key_of(pid_tgid: u64, stack: Result<u64, i64>, cpu: u32) -> Option<
    UnpackedHistogramKey,
> {
    match stack {
        Ok(id) => Some(
            UnpackedHistogramKey { pid: low_half(pid_tgid), stack_id: low_half(id), cpu },
        ),
        Err(_) => None,
    }
}

/// Forms the key of a sampled call from the pid/tgid word, the outcome of the
/// stack capture and the CPU number. A failed capture drops the sample.
pub fn sample_key(pid_tgid: u64, stack: Result<u64, i64>, cpu: u32) -> (key: Option<HistogramKey>)
    ensures
        key is Some <==> stack is Ok,
        key matches Some(k) ==> Some(k@) == key_of(pid_tgid, stack, cpu) && k.words()
            == HistogramKey::packed(low_half(pid_tgid), low_half(stack->Ok_0), cpu),
{
    let id = match stack {
        Ok(id) => id,
        Err(_) => {
            return None;
        },
    };
    assert((pid_tgid & 0xffff_ffff) == pid_tgid % 0x1_0000_0000) by (bit_vector);
    assert((id & 0xffff_ffff) == id % 0x1_0000_0000) by (bit_vector);
    let pid: u32 = (pid_tgid & 0xffff_ffff) as u32;
    let stack_id: u32 = (id & 0xffff_ffff) as u32;
    Some(HistogramKey::new(pid, stack_id, cpu))
}

/// The new content of a histogram slot, and whether the slot has to be
/// inserted because the table held none.
#[derive(Clone, Copy, Debug)]
pub struct SlotUpdate {
    pub value: Histogram,
    pub insert: bool,
}

/// Records one allocation of `size` bytes in the slot that the table holds
/// for the sample's key: an absent slot starts from the zero record.
pub fn update_hist(slot: Option<Histogram>, size: u64) -> (update: SlotUpdate)
    ensures
        update.insert == (slot is None),
        slot matches Some(before) ==> update.value@ == before@.incremented(size)
            && update.value@.no_less_than(before@),
        slot is None ==> update.value@ == HistogramView::zero().incremented(size),
{
    match slot {
        None => {
            let mut histogram = Histogram::new();
            histogram.increment(size);
            SlotUpdate { value: histogram, insert: true }
        },
        Some(hist) => {
            let mut hist = hist;
            hist.increment(size);
            SlotUpdate { value: hist, insert: false }
        },
    }
}

/// With the lower bound 0 and the upper bound `u64::MAX` every size is
/// accepted but 0 and `u64::MAX` itself, which no exclusive bound admits.
pub proof fn lemma_widest_bounds_accept(config: ProbeConfig, size: u64)
    requires
        config.min_alloc == Some(0u64) || config.min_alloc is None,
        config.max_alloc == Some(u64::MAX) || config.max_alloc is None,
    ensures
        config.accepts(size) <==> size != 0 && size != u64::MAX,
{
}

/// With the period 1 every call is sampled.
pub proof fn lemma_period_one_samples_all(config: ProbeConfig)
    requires
        config.sample_every == Some(1u64),
    ensures
        config.samples_next(),
{
}

/// The state after `calls` further calls.
pub open spec fn after_calls(config: ProbeConfig, calls: nat) -> ProbeConfig
    decreases calls,
{
    if calls == 0 {
        config
    } else {
        after_calls(config, (calls - 1) as nat).after_call()
    }
}

/// With the period `every`, starting where the counter is a multiple of the
/// period and has room for one more period, the next `every - 1` calls are
/// skipped and the call after them is sampled.
pub proof fn lemma_samples_every_kth(config: ProbeConfig, call: nat)
    requires
        config.counts_calls(),
        config.sample_count->0 % config.sample_every->0 == 0,
        config.sample_count->0 + config.sample_every->0 <= u64::MAX,
        1 <= call <= config.sample_every->0,
    ensures
        after_calls(config, (call - 1) as nat).samples_next() <==> call == config.sample_every->0,
        after_calls(config, call).sample_count == Some((config.sample_count->0 + call) as u64),
{
    let every = config.sample_every->0 as int;
    let start = config.sample_count->0 as int;
    lemma_after_calls_counts(config, (call - 1) as nat);
    lemma_after_calls_counts(config, call);
    vstd::arithmetic::div_mod::lemma_mod_multiples_vanish(start / every, call as int, every);
    vstd::arithmetic::div_mod::lemma_fundamental_div_mod(start, every);
    assert(start == every * (start / every)) by (nonlinear_arith)
        requires
            start == every * (start / every) + start % every,
            start % every == 0,
    ;
    assert((start + call) % every == (call as int) % every) by (nonlinear_arith)
        requires
            start == every * (start / every),
            (every * (start / every) + call) % every == (call as int) % every,
    ;
    if call < every {
        vstd::arithmetic::div_mod::lemma_small_mod(call, every as nat);
    } else {
        vstd::arithmetic::div_mod::lemma_mod_self_0(every);
    }
}

/// While the counter does not wrap, `calls` calls advance it by `calls` and
/// change nothing else.
pub proof fn lemma_after_calls_counts(config: ProbeConfig, calls: nat)
    requires
        config.counts_calls(),
        config.sample_count->0 + calls <= u64::MAX,
    ensures
        after_calls(config, calls) == (ProbeConfig {
            sample_count: Some((config.sample_count->0 + calls) as u64),
            ..config
        }),
    decreases calls,
{
    if calls > 0 {
        lemma_after_calls_counts(config, (calls - 1) as nat);
    }
}


/// The values that the operator's choices put into one CPU's lane of the
/// configuration array, each at its fixed index; the sample counter starts
/// at zero.
pub fn config_cells(min_alloc: u64, max_alloc: u64, sample_every: u32, arg_index: u64) -> (cells:
    [u64; CONFIG_ENTRIES])
    ensures
        cells@[MIN_ALLOC_INDEX as int] == min_alloc,
        cells@[MAX_ALLOC_INDEX as int] == max_alloc,
        cells@[COUNT_INDEX as int] == 0,
        cells@[SAMPLE_EVERY_INDEX as int] == sample_every,
        cells@[FUNCTION_INFO_INDEX as int] == arg_index,
{
    let mut cells = [0u64; CONFIG_ENTRIES];
    cells[MIN_ALLOC_INDEX as usize] = min_alloc;
    cells[MAX_ALLOC_INDEX as usize] = max_alloc;
    cells[COUNT_INDEX as usize] = 0;
    cells[SAMPLE_EVERY_INDEX as usize] = sample_every as u64;
    cells[FUNCTION_INFO_INDEX as usize] = arg_index;
    cells
}

impl ProbeConfig {
    /// What the probe finds in a lane that holds `cells`.
    pub fn from_cells(cells: &[u64; CONFIG_ENTRIES]) -> (config: Self)
        ensures
            config.min_alloc == Some(cells@[MIN_ALLOC_INDEX as int]),
            config.max_alloc == Some(cells@[MAX_ALLOC_INDEX as int]),
            config.sample_count == Some(cells@[COUNT_INDEX as int]),
            config.sample_every == Some(cells@[SAMPLE_EVERY_INDEX as int]),
    {
        ProbeConfig {
            min_alloc: Some(cells[MIN_ALLOC_INDEX as usize]),
            max_alloc: Some(cells[MAX_ALLOC_INDEX as usize]),
            sample_count: Some(cells[COUNT_INDEX as usize]),
            sample_every: Some(cells[SAMPLE_EVERY_INDEX as usize]),
        }
    }
}

} // verus!
