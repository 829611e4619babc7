//! Sorting pairs of a weight and a position by the weight.

use vstd::prelude::*;
use vstd::seq_lib::lemma_multiset_commutative;

verus! {

/// Whether no pair stands before one of a lower weight.
pub open spec fn ascending_weights(pairs: Seq<(u64, usize)>) -> bool {
    forall|i: int, j: int|
        0 <= i < j < pairs.len() ==> (#[trigger] pairs[i]).0 <= (#[trigger] pairs[j]).0
}

/// Merges two ascending runs into one. Of two pairs of the same weight the
/// one from `left` comes first.
fn merge_runs(left: &Vec<(u64, usize)>, right: &Vec<(u64, usize)>) -> (merged: Vec<(u64, usize)>)
    requires
        ascending_weights(left@),
        ascending_weights(right@),
        left@.len() + right@.len() <= usize::MAX,
    ensures
        ascending_weights(merged@),
        merged@.to_multiset() == left@.to_multiset().add(right@.to_multiset()),
{
    let mut merged: Vec<(u64, usize)> = Vec::new();
    let mut i: usize = 0;
    let mut j: usize = 0;
    proof {
        broadcast use vstd::multiset::group_multiset_axioms;

        assert(left@.take(0) =~= Seq::empty());
        assert(right@.take(0) =~= Seq::empty());
        assert(merged@ =~= Seq::empty());
        merged@.to_multiset_ensures();
        assert(merged@.to_multiset() =~= left@.take(0).to_multiset().add(
            right@.take(0).to_multiset(),
        ));
    }
    while i < left.len() || j < right.len()
        invariant
            i <= left@.len(),
            j <= right@.len(),
            ascending_weights(left@),
            ascending_weights(right@),
            ascending_weights(merged@),
            merged@.len() == i + j,
            forall|a: int| 0 <= a < merged@.len() && i < left@.len() ==> (#[trigger] merged@[a]).0
                <= left@[i as int].0,
            forall|a: int| 0 <= a < merged@.len() && j < right@.len() ==> (#[trigger] merged@[a]).0
                <= right@[j as int].0,
            merged@.to_multiset() == left@.take(i as int).to_multiset().add(
                right@.take(j as int).to_multiset(),
            ),
        decreases left@.len() - i + right@.len() - j,
    {
        let ghost before = merged@;
        let from_left = if i == left.len() {
            false
        } else if j == right.len() {
            true
        } else {
            left[i].0 <= right[j].0
        };
        if from_left {
            proof {
                assert(left@.take(i + 1) =~= left@.take(i as int).push(left@[i as int]));
                vstd::seq_lib::to_multiset_build(left@.take(i as int), left@[i as int]);
                vstd::seq_lib::to_multiset_build(before, left@[i as int]);
            }
            merged.push(left[i]);
            i = i + 1;
        } else {
            proof {
                assert(right@.take(j + 1) =~= right@.take(j as int).push(right@[j as int]));
                vstd::seq_lib::to_multiset_build(right@.take(j as int), right@[j as int]);
                vstd::seq_lib::to_multiset_build(before, right@[j as int]);
            }
            merged.push(right[j]);
            j = j + 1;
        }
        proof {
            assert(merged@.to_multiset() =~= left@.take(i as int).to_multiset().add(
                right@.take(j as int).to_multiset(),
            ));
        }
    }
    proof {
        assert(left@.take(left@.len() as int) =~= left@);
        assert(right@.take(right@.len() as int) =~= right@);
    }
    merged
}

/// The pairs of `pairs` from `from` up to `to`, in ascending order of their
/// weight.
fn sorted_range(pairs: &Vec<(u64, usize)>, from: usize, to: usize) -> (sorted: Vec<(u64, usize)>)
    requires
        from <= to <= pairs@.len(),
    ensures
        ascending_weights(sorted@),
        sorted@.to_multiset() == pairs@.subrange(from as int, to as int).to_multiset(),
        sorted@.len() == to - from,
    decreases to - from,
{
    if to - from <= 1 {
        let mut sorted: Vec<(u64, usize)> = Vec::new();
        if to - from == 1 {
            sorted.push(pairs[from]);
        }
        assert(sorted@ =~= pairs@.subrange(from as int, to as int));
        sorted
    } else {
        let middle = from + (to - from) / 2;
        let left = sorted_range(pairs, from, middle);
        let right = sorted_range(pairs, middle, to);
        let sorted = merge_runs(&left, &right);
        proof {
            let first = pairs@.subrange(from as int, middle as int);
            let second = pairs@.subrange(middle as int, to as int);
            assert(first + second =~= pairs@.subrange(from as int, to as int));
            lemma_multiset_commutative(first, second);
            sorted@.to_multiset_ensures();
            pairs@.subrange(from as int, to as int).to_multiset_ensures();
        }
        sorted
    }
}

/// The pairs in ascending order of their weight: the result holds the pairs
/// that `pairs` holds, each as often, and no pair stands before one of a
/// lower weight.
pub fn sort_by_weight(pairs: &Vec<(u64, usize)>) -> (sorted: Vec<(u64, usize)>)
    ensures
        ascending_weights(sorted@),
        sorted@.to_multiset() == pairs@.to_multiset(),
{
    let sorted = sorted_range(pairs, 0, pairs.len());
    assert(pairs@.subrange(0, pairs@.len() as int) =~= pairs@);
    sorted
}

} // verus!
