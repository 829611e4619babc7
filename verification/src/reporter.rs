//! The final report: which entries it shows, in which order, and its text.

use crate::histogram::{Histogram, HistogramView};
use crate::merge::merged_stats;
use crate::options::OrderBy;
use crate::processor::{lists_merged, lists_shards, EventProcessor};
use crate::report::{histogram_text, print_histogram, print_section, SECTION_WIDTH};
use crate::resolver::ResolvedStackTrace;
use crate::schema::{ReducedEventKey, UnpackedHistogramKey};
use crate::sorting::{ascending_weights, sort_by_weight};
use crate::text::{decimal, push_char, push_decimal, repeated};
use vstd::prelude::*;
use vstd::string::StringExecFns;

verus! {

/// Whether the entries stand in ascending order of their weight.
pub open spec fn ascending(entries: Seq<(ReducedEventKey, Histogram)>, order_by: OrderBy) -> bool {
    forall|i: int, j: int|
        0 <= i < j < entries.len() ==> order_by.weight_of((#[trigger] entries[i]).1)
            <= order_by.weight_of((#[trigger] entries[j]).1)
}

/// Whether no call stack occurs twice among the entries.
pub open spec fn distinct_stacks(entries: Seq<(ReducedEventKey, Histogram)>) -> bool {
    forall|i: int, j: int|
        0 <= i < j < entries.len() ==> (#[trigger] entries[i]).0 != (#[trigger] entries[j]).0
}

/// Whether `shown` holds exactly the entries of `listing` whose sum of sizes
/// is not zero.
pub open spec fn shows_nonempty(
    shown: Seq<(ReducedEventKey, Histogram)>,
    listing: Seq<(ReducedEventKey, Histogram)>,
) -> bool {
    &&& forall|a: int|
        0 <= a < shown.len() ==> (#[trigger] shown[a]).1.total > 0 && listing.contains(shown[a])
    &&& forall|b: int|
        0 <= b < listing.len() && (#[trigger] listing[b]).1.total > 0 ==> shown.contains(
            listing[b],
        )
}

fn keep_nonempty(listing: &Vec<(ReducedEventKey, Histogram)>) -> (kept: Vec<
    (ReducedEventKey, Histogram),
>)
    ensures
        shows_nonempty(kept@, listing@),
        distinct_stacks(listing@) ==> distinct_stacks(kept@),
{
    let mut kept: Vec<(ReducedEventKey, Histogram)> = Vec::new();
    let ghost mut origin: Seq<int> = Seq::empty();
    let ghost mut place: Seq<int> = Seq::empty();
    let mut i: usize = 0;
    while i < listing.len()
        invariant
            i <= listing@.len(),
            origin.len() == kept@.len(),
            place.len() == i,
            forall|a: int|
                0 <= a < kept@.len() ==> 0 <= #[trigger] origin[a] < i && kept@[a]
                    == listing@[origin[a]] && listing@[origin[a]].1.total > 0,
            forall|a: int, c: int| 0 <= a < c < kept@.len() ==> origin[a] < origin[c],
            forall|b: int|
                0 <= b < i && listing@[b].1.total > 0 ==> 0 <= #[trigger] place[b] < kept@.len()
                    && origin[place[b]] == b,
        decreases listing@.len() - i,
    {
        let entry = listing[i];
        if entry.1.total > 0 {
            proof {
                origin = origin.push(i as int);
                place = place.push(kept@.len() as int);
            }
            kept.push(entry);
        } else {
            proof {
                place = place.push(-1);
            }
        }
        i = i + 1;
    }
    proof {
        assert forall|a: int| 0 <= a < kept@.len() implies (#[trigger] kept@[a]).1.total > 0
            && listing@.contains(kept@[a]) by {
            assert(listing@[origin[a]] == kept@[a]);
        }
        assert forall|b: int|
            0 <= b < listing@.len() && (#[trigger] listing@[b]).1.total > 0 implies kept@.contains(
            listing@[b],
        ) by {
            assert(kept@[place[b]] == listing@[b]);
        }
        if distinct_stacks(listing@) {
            assert forall|a: int, c: int| 0 <= a < c < kept@.len() implies (#[trigger] kept@[a]).0
                != (#[trigger] kept@[c]).0 by {
                assert(listing@[origin[a]].0 != listing@[origin[c]].0);
            }
        }
    }
    kept
}

fn weigh(kept: &Vec<(ReducedEventKey, Histogram)>, order_by: OrderBy) -> (weighted: Vec<
    (u64, usize),
>)
    ensures
        weighted@.len() == kept@.len(),
        forall|a: int|
            0 <= a < weighted@.len() ==> #[trigger] weighted@[a] == (
                order_by.weight_of(kept@[a].1),
                a as usize,
            ),
{
    let mut weighted: Vec<(u64, usize)> = Vec::new();
    let mut i: usize = 0;
    while i < kept.len()
        invariant
            i <= kept@.len(),
            weighted@.len() == i,
            forall|a: int|
                0 <= a < i ==> #[trigger] weighted@[a] == (
                    order_by.weight_of(kept@[a].1),
                    a as usize,
                ),
        decreases kept@.len() - i,
    {
        weighted.push((order_by.weight(&kept[i].1), i));
        i = i + 1;
    }
    weighted
}

/// Two sequences that hold the same pairs equally often, one of them without
/// a pair twice: each pair of one stands in the other, and neither holds a
/// pair twice.
proof fn lemma_rearranged(sorted: Seq<(u64, usize)>, unsorted: Seq<(u64, usize)>)
    requires
        sorted.to_multiset() == unsorted.to_multiset(),
        unsorted.no_duplicates(),
    ensures
        sorted.len() == unsorted.len(),
        sorted.no_duplicates(),
        forall|k: int| 0 <= k < sorted.len() ==> unsorted.contains(#[trigger] sorted[k]),
        forall|a: int| 0 <= a < unsorted.len() ==> sorted.contains(#[trigger] unsorted[a]),
{
    sorted.to_multiset_ensures();
    unsorted.to_multiset_ensures();
    unsorted.lemma_multiset_has_no_duplicates();
    sorted.lemma_multiset_has_no_duplicates_conv();
    assert forall|k: int| 0 <= k < sorted.len() implies unsorted.contains(#[trigger] sorted[k]) by {
        assert(sorted.contains(sorted[k]));
        assert(sorted.to_multiset().count(sorted[k]) > 0);
    }
    assert forall|a: int| 0 <= a < unsorted.len() implies sorted.contains(
        #[trigger] unsorted[a],
    ) by {
        assert(unsorted.contains(unsorted[a]));
        assert(unsorted.to_multiset().count(unsorted[a]) > 0);
    }
}

fn arrange(kept: &Vec<(ReducedEventKey, Histogram)>, order: &Vec<(u64, usize)>) -> (shown: Vec<
    (ReducedEventKey, Histogram),
>)
    requires
        forall|c: int| 0 <= c < order@.len() ==> (#[trigger] order@[c]).1 < kept@.len(),
    ensures
        shown@.len() == order@.len(),
        forall|c: int| 0 <= c < order@.len() ==> #[trigger] shown@[c] == kept@[order@[c].1 as int],
{
    let mut shown: Vec<(ReducedEventKey, Histogram)> = Vec::new();
    let mut k: usize = 0;
    while k < order.len()
        invariant
            k <= order@.len(),
            shown@.len() == k,
            forall|c: int| 0 <= c < order@.len() ==> (#[trigger] order@[c]).1 < kept@.len(),
            forall|c: int| 0 <= c < k ==> #[trigger] shown@[c] == kept@[order@[c].1 as int],
        decreases order@.len() - k,
    {
        let place = order[k].1;
        shown.push(kept[place]);
        k = k + 1;
    }
    shown
}

/// Every pair of the sorted vector names a kept entry and carries its
/// weight.
proof fn lemma_places(
    kept: Seq<(ReducedEventKey, Histogram)>,
    unsorted: Seq<(u64, usize)>,
    sorted: Seq<(u64, usize)>,
    order_by: OrderBy,
)
    requires
        kept.len() <= usize::MAX,
        unsorted.len() == kept.len(),
        forall|a: int|
            0 <= a < unsorted.len() ==> #[trigger] unsorted[a] == (
                order_by.weight_of(kept[a].1),
                a as usize,
            ),
        sorted.to_multiset() == unsorted.to_multiset(),
    ensures
        unsorted.no_duplicates(),
        sorted.len() == kept.len(),
        forall|c: int|
            0 <= c < sorted.len() ==> (#[trigger] sorted[c]).1 < kept.len() && sorted[c]
                == unsorted[sorted[c].1 as int],
{
    assert forall|a: int, b: int| 0 <= a < unsorted.len() && 0 <= b < unsorted.len() && a
        != b implies unsorted[a] != unsorted[b] by {
        assert(unsorted[a].1 == a as usize);
        assert(unsorted[b].1 == b as usize);
    }
    lemma_rearranged(sorted, unsorted);
    assert forall|c: int| 0 <= c < sorted.len() implies (#[trigger] sorted[c]).1 < kept.len()
        && sorted[c] == unsorted[sorted[c].1 as int] by {
        assert(unsorted.contains(sorted[c]));
        let a = choose|a: int| 0 <= a < unsorted.len() && unsorted[a] == sorted[c];
        assert(unsorted[a].1 == a as usize);
    }
}

/// What holds between the kept entries, the pairs made of them, those
/// pairs sorted, and the entries arranged as the sorted pairs say.
spec fn arranged(
    kept: Seq<(ReducedEventKey, Histogram)>,
    unsorted: Seq<(u64, usize)>,
    sorted: Seq<(u64, usize)>,
    shown: Seq<(ReducedEventKey, Histogram)>,
    order_by: OrderBy,
) -> bool {
    &&& kept.len() <= usize::MAX
    &&& unsorted.len() == kept.len()
    &&& forall|a: int|
        0 <= a < unsorted.len() ==> #[trigger] unsorted[a] == (
            order_by.weight_of(kept[a].1),
            a as usize,
        )
    &&& sorted.to_multiset() == unsorted.to_multiset()
    &&& shown.len() == sorted.len()
    &&& forall|c: int|
        0 <= c < sorted.len() ==> (#[trigger] sorted[c]).1 < kept.len() && shown[c]
            == kept[sorted[c].1 as int]
}

/// The arranged entries are entries of the listing.
proof fn lemma_arranged_from(
    listing: Seq<(ReducedEventKey, Histogram)>,
    kept: Seq<(ReducedEventKey, Histogram)>,
    unsorted: Seq<(u64, usize)>,
    sorted: Seq<(u64, usize)>,
    shown: Seq<(ReducedEventKey, Histogram)>,
    order_by: OrderBy,
)
    requires
        arranged(kept, unsorted, sorted, shown, order_by),
        shows_nonempty(kept, listing),
    ensures
        shows_nonempty(shown, listing),
{
    lemma_places(kept, unsorted, sorted, order_by);
    lemma_rearranged(sorted, unsorted);
    assert forall|a: int| 0 <= a < shown.len() implies (#[trigger] shown[a]).1.total > 0
        && listing.contains(shown[a]) by {
        let place = sorted[a].1 as int;
        assert(kept[place].1.total > 0);
        assert(listing.contains(kept[place]));
    }
    assert forall|b: int|
        0 <= b < listing.len() && (#[trigger] listing[b]).1.total > 0 implies shown.contains(
        listing[b],
    ) by {
        assert(kept.contains(listing[b]));
        let place = choose|a: int| 0 <= a < kept.len() && kept[a] == listing[b];
        assert(sorted.contains(unsorted[place]));
        let c = choose|c: int| 0 <= c < sorted.len() && sorted[c] == unsorted[place];
        assert(unsorted[place].1 == place as usize);
        assert(shown[c] == listing[b]);
    }
}

/// The arranged entries ascend as the sorted pairs do.
proof fn lemma_arranged_ascending(
    kept: Seq<(ReducedEventKey, Histogram)>,
    unsorted: Seq<(u64, usize)>,
    sorted: Seq<(u64, usize)>,
    shown: Seq<(ReducedEventKey, Histogram)>,
    order_by: OrderBy,
)
    requires
        arranged(kept, unsorted, sorted, shown, order_by),
        ascending_weights(sorted),
    ensures
        ascending(shown, order_by),
{
    lemma_places(kept, unsorted, sorted, order_by);
    assert forall|a: int, c: int| 0 <= a < c < shown.len() implies order_by.weight_of(
        (#[trigger] shown[a]).1,
    ) <= order_by.weight_of((#[trigger] shown[c]).1) by {
        assert(sorted[a] == unsorted[sorted[a].1 as int]);
        assert(sorted[c] == unsorted[sorted[c].1 as int]);
        assert(sorted[a].0 <= sorted[c].0);
    }
}

/// The arranged entries name no call stack twice if the kept ones name none
/// twice.
proof fn lemma_arranged_distinct(
    kept: Seq<(ReducedEventKey, Histogram)>,
    unsorted: Seq<(u64, usize)>,
    sorted: Seq<(u64, usize)>,
    shown: Seq<(ReducedEventKey, Histogram)>,
    order_by: OrderBy,
)
    requires
        arranged(kept, unsorted, sorted, shown, order_by),
        distinct_stacks(kept),
    ensures
        distinct_stacks(shown),
{
    lemma_places(kept, unsorted, sorted, order_by);
    lemma_rearranged(sorted, unsorted);
    assert forall|a: int, c: int| 0 <= a < c < shown.len() implies (#[trigger] shown[a]).0 != (
    #[trigger] shown[c]).0 by {
        let pa = sorted[a].1 as int;
        let pc = sorted[c].1 as int;
        if pa == pc {
            assert(sorted[a] == unsorted[pa]);
            assert(sorted[c] == unsorted[pc]);
            assert(sorted[a] == sorted[c]);
        } else if pa < pc {
            assert(kept[pa].0 != kept[pc].0);
        } else {
            assert(kept[pc].0 != kept[pa].0);
        }
    }
}

/// The entries of the report: those of `listing` whose sum of sizes is not
/// zero, in ascending order of the number of allocations or of the sum of
/// sizes, as `order_by` says.
pub fn order_entries(listing: &Vec<(ReducedEventKey, Histogram)>, order_by: OrderBy) -> (shown: Vec<
    (ReducedEventKey, Histogram),
>)
    ensures
        shows_nonempty(shown@, listing@),
        ascending(shown@, order_by),
        distinct_stacks(listing@) ==> distinct_stacks(shown@),
{
    let kept = keep_nonempty(listing);
    let _entries = kept.len();
    let weighted = weigh(&kept, order_by);
    let sorted = sort_by_weight(&weighted);
    proof {
        lemma_places(kept@, weighted@, sorted@, order_by);
    }
    let shown = arrange(&kept, &sorted);
    proof {
        lemma_arranged_from(listing@, kept@, weighted@, sorted@, shown@, order_by);
        lemma_arranged_ascending(kept@, weighted@, sorted@, shown@, order_by);
        if distinct_stacks(listing@) {
            lemma_arranged_distinct(kept@, weighted@, sorted@, shown@, order_by);
        }
    }
    shown
}


/// The merged records that the report shows: those whose sum of sizes is
/// not zero.
pub open spec fn shown_stats(merged: Map<ReducedEventKey, HistogramView>) -> Map<
    ReducedEventKey,
    HistogramView,
> {
    Map::new(
        |stack: ReducedEventKey| merged.contains_key(stack) && merged[stack].total > 0,
        |stack: ReducedEventKey| merged[stack],
    )
}

/// The entries that are shown of a listing of the merged store list the
/// shown records.
pub proof fn lemma_shown_lists(
    shown: Seq<(ReducedEventKey, Histogram)>,
    listing: Seq<(ReducedEventKey, Histogram)>,
    merged: Map<ReducedEventKey, HistogramView>,
)
    requires
        lists_merged(listing, merged),
        shows_nonempty(shown, listing),
        distinct_stacks(shown),
    ensures
        lists_merged(shown, shown_stats(merged)),
{
    let target = shown_stats(merged);
    assert forall|i: int| 0 <= i < shown.len() implies target.contains_key(#[trigger] shown[i].0)
        && target[shown[i].0] == shown[i].1@ by {
        assert(listing.contains(shown[i]));
        let b = choose|b: int| 0 <= b < listing.len() && listing[b] == shown[i];
        assert(merged.contains_key(listing[b].0));
    }
    assert forall|stack: ReducedEventKey| #[trigger] target.contains_key(stack) implies exists|
        i: int,
    | 0 <= i < shown.len() && #[trigger] shown[i].0 == stack by {
        assert(merged.contains_key(stack));
        let b = choose|b: int| 0 <= b < listing.len() && #[trigger] listing[b].0 == stack;
        assert(listing[b].1.total > 0);
        assert(shown.contains(listing[b]));
        let a = choose|a: int| 0 <= a < shown.len() && shown[a] == listing[b];
        assert(shown[a].0 == stack);
    }
}

/// One frame of a stack as the report shows it: the address as a decimal
/// number, a dash, and the symbol.
pub open spec fn frame_text(address: u64, symbol: Seq<char>) -> Seq<char> {
    decimal(address as nat) + seq![' ', '-', ' '] + symbol + seq!['\n']
}

/// The first `upto` frames of a stack, one line each.
pub open spec fn frames_text(trace: ResolvedStackTrace, upto: nat) -> Seq<char>
    decreases upto,
{
    if upto == 0 {
        Seq::empty()
    } else {
        frames_text(trace, (upto - 1) as nat) + frame_text(
            trace.symbols@[upto - 1].address,
            trace.symbols@[upto - 1].symbol@,
        )
    }
}

/// The stack of an entry as the report shows it: its frames if the stack id
/// was resolved, one line that says so if not.
pub open spec fn stack_text(traces: Map<u32, ResolvedStackTrace>, stack_id: u32) -> Seq<char> {
    if traces.contains_key(stack_id) {
        frames_text(traces[stack_id], traces[stack_id].symbols@.len())
    } else {
        "No resolved stacktrace\n"@
    }
}

/// One entry of the report: a rule of stars, the stack, a rule of dashes,
/// the histogram's table and two line breaks.
pub open spec fn entry_text(
    entry: (ReducedEventKey, Histogram),
    traces: Map<u32, ResolvedStackTrace>,
) -> Seq<char> {
    repeated('*', SECTION_WIDTH as nat) + seq!['\n'] + stack_text(traces, entry.0.stack_id)
        + repeated('-', SECTION_WIDTH as nat) + seq!['\n'] + histogram_text(entry.1@) + seq![
        '\n',
        '\n',
    ]
}

/// The first `upto` entries of the report.
pub open spec fn entries_text(
    entries: Seq<(ReducedEventKey, Histogram)>,
    traces: Map<u32, ResolvedStackTrace>,
    upto: nat,
) -> Seq<char>
    decreases upto,
{
    if upto == 0 {
        Seq::empty()
    } else {
        entries_text(entries, traces, (upto - 1) as nat) + entry_text(entries[upto - 1], traces)
    }
}

/// The whole report: the number of call stacks, then the entries.
pub open spec fn report_text(
    stacks: nat,
    entries: Seq<(ReducedEventKey, Histogram)>,
    traces: Map<u32, ResolvedStackTrace>,
) -> Seq<char> {
    "total stack traces: "@ + decimal(stacks) + seq!['\n', '\n'] + entries_text(
        entries,
        traces,
        entries.len(),
    )
}

impl EventProcessor {
    /// Appends the stack of a stack id as the report shows it.
    pub fn print_trace(&self, stack_id: u32, pager: &mut String)
        ensures
            final(pager)@ == old(pager)@ + stack_text(self.traces(), stack_id),
    {
        match self.trace(stack_id) {
            Some(resolved_trace) => {
                let mut i: usize = 0;
                assert(pager@ =~= old(pager)@ + frames_text(*resolved_trace, 0));
                while i < resolved_trace.symbols.len()
                    invariant
                        i <= resolved_trace.symbols@.len(),
                        pager@ == old(pager)@ + frames_text(*resolved_trace, i as nat),
                    decreases resolved_trace.symbols@.len() - i,
                {
                    let fun = &resolved_trace.symbols[i];
                    proof {
                        reveal_strlit(" - ");
                    }
                    assert(" - "@ =~= seq![' ', '-', ' ']);
                    push_decimal(pager, fun.address as u128);
                    pager.append(" - ");
                    pager.append(fun.symbol.as_str());
                    push_char(pager, '\n');
                    i = i + 1;
                    assert(pager@ =~= old(pager)@ + frames_text(*resolved_trace, i as nat));
                }
            },
            None => {
                pager.append("No resolved stacktrace\n");
            },
        }
    }

    /// Appends one entry of the report.
    pub fn print_entry(&self, entry: &(ReducedEventKey, Histogram), pager: &mut String)
        ensures
            final(pager)@ == old(pager)@ + entry_text(*entry, self.traces()),
    {
        print_section(pager, '*');
        self.print_trace(entry.0.stack_id, pager);
        print_section(pager, '-');
        print_histogram(&entry.1, pager);
        push_char(pager, '\n');
        push_char(pager, '\n');
        assert(pager@ =~= old(pager)@ + entry_text(*entry, self.traces()));
    }

    /// Appends the report to `pager` and hands back the entries that it
    /// shows, in the order in which it shows them: the merged record of every
    /// call stack whose sum of sizes is not zero, ascending by the number of
    /// allocations or by the sum of sizes.
    pub fn print_histogram(&self, order_by: OrderBy, pager: &mut String) -> (entries: Vec<
        (ReducedEventKey, Histogram),
    >)
        requires
            self.wf(),
        ensures
            lists_merged(entries@, shown_stats(merged_stats(self.stats()))),
            ascending(entries@, order_by),
            final(pager)@ == old(pager)@ + report_text(
                merged_stats(self.stats()).dom().len(),
                entries@,
                self.traces(),
            ),
    {
        let stats = self.merge();
        pager.append("total stack traces: ");
        push_decimal(pager, stats.len() as u128);
        push_char(pager, '\n');
        push_char(pager, '\n');
        let entries = order_entries(&stats, order_by);
        proof {
            lemma_shown_lists(entries@, stats@, merged_stats(self.stats()));
        }
        let ghost start = pager@;
        assert(start =~= old(pager)@ + "total stack traces: "@ + decimal(stats@.len()) + seq![
            '\n',
            '\n',
        ]);
        let mut i: usize = 0;
        assert(pager@ =~= start + entries_text(entries@, self.traces(), 0));
        while i < entries.len()
            invariant
                i <= entries@.len(),
                pager@ == start + entries_text(entries@, self.traces(), i as nat),
            decreases entries@.len() - i,
        {
            self.print_entry(&entries[i], pager);
            i = i + 1;
            assert(pager@ =~= start + entries_text(entries@, self.traces(), i as nat));
        }
        assert(pager@ =~= old(pager)@ + report_text(stats@.len(), entries@, self.traces()));
        entries
    }
}


/// The folded-stack lines of the first `upto` listed shards: one line for
/// each shard whose stack id was resolved, weighted by the number of
/// allocations or by the sum of sizes, as `mode` says.
pub open spec fn folded_lines(
    listing: Seq<(UnpackedHistogramKey, Histogram)>,
    traces: Map<u32, ResolvedStackTrace>,
    mode: OrderBy,
    upto: nat,
) -> Seq<Seq<char>>
    decreases upto,
{
    if upto == 0 {
        Seq::empty()
    } else {
        let before = folded_lines(listing, traces, mode, (upto - 1) as nat);
        let entry = listing[upto - 1];
        if traces.contains_key(entry.0.stack_id) {
            before.push(traces[entry.0.stack_id].folded(mode.weight_of(entry.1)))
        } else {
            before
        }
    }
}

impl EventProcessor {
    /// The folded-stack lines of the listed shards, in the order of the
    /// listing. A shard whose stack id was not resolved gives no line.
    pub fn fold_shards(
        &self,
        listing: &Vec<(UnpackedHistogramKey, Histogram)>,
        mode: OrderBy,
    ) -> (lines: Vec<String>)
        ensures
            lines.deep_view() == folded_lines(listing@, self.traces(), mode, listing@.len()),
    {
        let mut lines: Vec<String> = Vec::new();
        let mut i: usize = 0;
        while i < listing.len()
            invariant
                i <= listing@.len(),
                lines@.len() == folded_lines(listing@, self.traces(), mode, i as nat).len(),
                forall|a: int|
                    0 <= a < lines@.len() ==> (#[trigger] lines@[a])@ == folded_lines(
                        listing@,
                        self.traces(),
                        mode,
                        i as nat,
                    )[a],
            decreases listing@.len() - i,
        {
            let entry = &listing[i];
            match self.trace(entry.0.stack_id) {
                Some(symbols) => {
                    let line = symbols.as_inferno(mode.weight(&entry.1));
                    lines.push(line);
                },
                None => {},
            }
            i = i + 1;
        }
        assert(lines.deep_view() =~= folded_lines(listing@, self.traces(), mode, listing@.len()));
        lines
    }

    /// The folded-stack lines for the flame graph: one line for each stored
    /// per-CPU shard whose stack id was resolved, in no particular order.
    pub fn write_flame_graph(&self, mode: OrderBy) -> (lines: Vec<String>)
        requires
            self.wf(),
        ensures
            exists|listing: Seq<(UnpackedHistogramKey, Histogram)>|
                lists_shards(listing, self.stats()) && lines.deep_view() == folded_lines(
                    listing,
                    self.traces(),
                    mode,
                    listing.len(),
                ),
    {
        let listing = self.shards();
        let lines = self.fold_shards(&listing, mode);
        assert(lists_shards(listing@, self.stats()) && lines.deep_view() == folded_lines(
            listing@,
            self.traces(),
            mode,
            listing@.len(),
        ));
        lines
    }
}

} // verus!
