//! Rendering one histogram as a text table.

use crate::histogram::{lemma_count_within_total, pow2_u64, Histogram, HistogramView, BUCKETS};
use crate::text::{
    decimal, digit_char, padded_left, padded_right, push_char, push_decimal, push_padded_left,
    push_padded_right, push_repeated, repeated,
};
use vstd::prelude::*;
use vstd::string::StringExecFns;

verus! {

/// Width of a section rule in characters.
pub const SECTION_WIDTH: usize = 80;

/// Width of the longest bar in characters.
pub const BAR_WIDTH: usize = 50;

/// The text that `bytesize::to_string` gives for a number of bytes, with
/// binary units if `si_prefix` is set and decimal ones if not.
pub uninterp spec fn human_size(bytes: u64, si_prefix: bool) -> Seq<char>;

/// A number of bytes as a text for readers. This is `bytesize::to_string`:
/// below one unit (1024 bytes with `si_prefix`, 1000 without) it is the
/// decimal number followed by ` B`; from one unit on it is a number with one
/// decimal and a unit, which the contract only names.
#[verifier::external_body]
fn size_text(bytes: u64, si_prefix: bool) -> (text: String)
    ensures
        text@ == human_size(bytes, si_prefix),
        bytes < (if si_prefix { 1024u64 } else { 1000u64 }) ==> text@ == decimal(bytes as nat)
            + seq![' ', 'B'],
{
    bytesize::to_string(bytes, si_prefix)
}

/// The size that the bucket `size` stands for: `2^size`.
pub fn size_bytes(size: usize) -> (bytes: u64)
    requires
        size < 64,
    ensures
        bytes == pow2_u64(size as nat),
{
    1u64 << size
}

/// Appends a rule of 80 copies of `char` and a line break.
pub fn print_section(pager: &mut String, char: char)
    ensures
        final(pager)@ == old(pager)@ + repeated(char, SECTION_WIDTH as nat) + seq!['\n'],
{
    push_repeated(pager, char, SECTION_WIDTH);
    push_char(pager, '\n');
}

/// `count` as hundredths of a percent of `total`, rounded to the nearest
/// hundredth, a tie to the even one.
pub open spec fn percent_hundredths(count: u64, total: u64) -> nat
    recommends
        total > 0,
{
    let scaled = count as nat * 10000;
    let quotient = scaled / total as nat;
    let rest = scaled % total as nat;
    if 2 * rest > total || (2 * rest == total && quotient % 2 == 1) {
        quotient + 1
    } else {
        quotient
    }
}

/// Length of the bar for `count` where the longest bar stands for `max`:
/// `50 * count / max`, rounded to the nearest integer, a tie upwards.
pub open spec fn bar_length(count: u64, max: u64) -> nat
    recommends
        0 < max,
        count <= max,
{
    ((count as nat * 100 + max as nat) / (2 * max as nat)) as nat
}

/// A number of hundredths with two decimals.
pub open spec fn two_decimals(hundredths: nat) -> Seq<char> {
    decimal(hundredths / 100) + seq!['.', digit_char(hundredths % 100 / 10), digit_char(
        hundredths % 10,
    )]
}

/// One row of the table: the size in ten columns, the count in nine, the
/// percentage in nine with a `%`, and the bar.
pub open spec fn row_text(size: Seq<char>, count: u64, total: u64, max: u64) -> Seq<char> {
    padded_right(size, 10) + seq![' ', '|', ' '] + padded_left(decimal(count as nat), 9) + seq![
        ' ',
        '|',
        ' ',
    ] + padded_left(two_decimals(percent_hundredths(count, total)), 9) + seq!['%', ' ', '|', ' ']
        + repeated('#', bar_length(count, max)) + seq!['\n']
}

fn compute_percent(count: u64, total: u64) -> (hundredths: u128)
    requires
        total > 0,
    ensures
        hundredths == percent_hundredths(count, total),
{
    let scaled: u128 = count as u128 * 10000;
    let quotient: u128 = scaled / (total as u128);
    let rest: u128 = scaled % (total as u128);
    if 2 * rest > total as u128 || (2 * rest == total as u128 && quotient % 2 == 1) {
        quotient + 1
    } else {
        quotient
    }
}

fn compute_bar(count: u64, max: u64) -> (length: usize)
    requires
        0 < max,
        count <= max,
    ensures
        length == bar_length(count, max),
        length <= BAR_WIDTH,
{
    let doubled: u128 = count as u128 * 100 + max as u128;
    let length: u128 = doubled / (2 * max as u128);
    assert(length <= 50) by {
        assert(doubled <= 101 * max);
        assert(doubled < 51 * (2 * max));
        vstd::arithmetic::div_mod::lemma_div_by_multiple_is_strongly_ordered(
            doubled as int,
            51 * (2 * max) as int,
            51,
            (2 * max) as int,
        );
        vstd::arithmetic::div_mod::lemma_div_multiples_vanish(51, (2 * max) as int);
    }
    length as usize
}


/// Appends one row of the table for a bucket whose size reads `size`.
pub fn push_row(out: &mut String, size: &str, count: u64, total: u64, max: u64)
    requires
        total > 0,
        0 < max,
        count <= max,
    ensures
        final(out)@ == old(out)@ + row_text(size@, count, total, max),
{
    proof {
        reveal_strlit(" | ");
        reveal_strlit("% | ");
    }
    assert(" | "@ =~= seq![' ', '|', ' ']);
    assert("% | "@ =~= seq!['%', ' ', '|', ' ']);
    push_padded_right(out, size, 10);
    out.append(" | ");
    let mut number = String::new();
    push_decimal(&mut number, count as u128);
    assert(number@ =~= decimal(count as nat));
    push_padded_left(out, number.as_str(), 9);
    out.append(" | ");
    let hundredths = compute_percent(count, total);
    let mut percent = String::new();
    push_decimal(&mut percent, hundredths / 100);
    push_char(&mut percent, '.');
    push_decimal(&mut percent, hundredths % 100 / 10);
    push_decimal(&mut percent, hundredths % 10);
    assert(percent@ =~= two_decimals(hundredths as nat));
    push_padded_left(out, percent.as_str(), 9);
    out.append("% | ");
    push_repeated(out, '#', compute_bar(count, max));
    push_char(out, '\n');
    assert(out@ =~= old(out)@ + row_text(size@, count, total, max));
}

/// The largest of the counters; 0 if there is none.
pub open spec fn max_count(counts: Seq<u64>) -> u64
    decreases counts.len(),
{
    if counts.len() == 0 {
        0
    } else if max_count(counts.drop_last()) >= counts.last() {
        max_count(counts.drop_last())
    } else {
        counts.last()
    }
}

/// The rows for the first `upto` buckets: one row for each bucket that is not
/// empty, lowest bucket first. The size column shows `2^bucket`.
pub open spec fn rows_text(h: HistogramView, upto: nat) -> Seq<char>
    decreases upto,
{
    if upto == 0 {
        Seq::empty()
    } else {
        let bucket = (upto - 1) as nat;
        rows_text(h, bucket) + if h.counts[bucket as int] > 0 {
            row_text(
                human_size(pow2_u64(bucket), true),
                h.counts[bucket as int],
                h.total_count(),
                max_count(h.counts),
            )
        } else {
            Seq::empty()
        }
    }
}

/// The two lines above the rows.
pub open spec fn header_text() -> Seq<char> {
    "Size      | Count     | Percentage | Distribution\n"@
        + "----------+-----------+------------+"@ + repeated('-', BAR_WIDTH as nat) + seq!['\n']
}

/// The line below the rows: the sum of sizes as `total` reads it, and the
/// number of allocations.
pub open spec fn summary_text(total: Seq<char>, count: u64) -> Seq<char> {
    "Total allocations: "@ + total + " in "@ + decimal(count as nat) + " allocations\n"@
}

/// The whole table of one histogram.
pub open spec fn histogram_text(h: HistogramView) -> Seq<char> {
    header_text() + rows_text(h, h.counts.len()) + summary_text(
        human_size(h.total, true),
        h.total_count(),
    )
}

/// Appends the line below the rows, with the sum of sizes reading `total`.
pub fn push_summary(out: &mut String, total: &str, count: u64)
    ensures
        final(out)@ == old(out)@ + summary_text(total@, count),
{
    out.append("Total allocations: ");
    out.append(total);
    out.append(" in ");
    push_decimal(out, count as u128);
    out.append(" allocations\n");
    assert(out@ =~= old(out)@ + summary_text(total@, count));
}

fn largest_count(hist: &Histogram) -> (max: u64)
    ensures
        max == max_count(hist@.counts),
        forall|i: int| 0 <= i < BUCKETS ==> hist@.counts[i] <= max,
{
    let mut max: u64 = 0;
    let mut i: usize = 0;
    while i < BUCKETS
        invariant
            i <= BUCKETS,
            max == max_count(hist.data@.take(i as int)),
            forall|j: int| 0 <= j < i ==> hist.data@[j] <= max,
        decreases BUCKETS - i,
    {
        assert(hist.data@.take(i + 1).drop_last() =~= hist.data@.take(i as int));
        if hist.data[i] > max {
            max = hist.data[i];
        }
        i = i + 1;
    }
    assert(hist.data@.take(BUCKETS as int) =~= hist.data@);
    max
}


/// Appends the table of one histogram: the header, one row for each bucket
/// that is not empty, and the summary.
pub fn print_histogram(hist: &Histogram, pager: &mut String)
    ensures
        final(pager)@ == old(pager)@ + histogram_text(hist@),
{
    let longest = largest_count(hist);
    let total_count = hist.total_count();
    pager.append("Size      | Count     | Percentage | Distribution\n");
    pager.append("----------+-----------+------------+");
    push_repeated(pager, '-', BAR_WIDTH);
    push_char(pager, '\n');
    assert(pager@ =~= old(pager)@ + header_text());
    let mut size: usize = 0;
    while size < BUCKETS
        invariant
            size <= BUCKETS,
            longest == max_count(hist@.counts),
            total_count == hist@.total_count(),
            forall|i: int| 0 <= i < BUCKETS ==> hist@.counts[i] <= longest,
            pager@ == old(pager)@ + header_text() + rows_text(hist@, size as nat),
        decreases BUCKETS - size,
    {
        let count = hist.data[size];
        let ghost before = pager@;
        if count > 0 {
            proof {
                lemma_count_within_total(hist@, size as int);
            }
            let text = size_text(size_bytes(size), true);
            push_row(pager, text.as_str(), count, total_count, longest);
        }
        size = size + 1;
        assert(pager@ =~= old(pager)@ + header_text() + rows_text(hist@, size as nat));
    }
    let total = size_text(hist.total, true);
    push_summary(pager, total.as_str(), total_count);
    assert(pager@ =~= old(pager)@ + histogram_text(hist@));
}

} // verus!
