//! The hash maps and hash sets of `rustc_hash` as the library uses them.
//!
//! `FxHashMap` and `FxHashSet` are the standard collections with the hash
//! builder `FxBuildHasher`, which hands out every hasher in the same constant
//! state. The functions here call the collection's own methods; their
//! contracts say what the standard library documents of each method, for keys
//! whose `==` and hash go by their value.

use core::hash::Hash;
use rustc_hash::{FxBuildHasher, FxHashMap, FxHashSet};
use vstd::prelude::*;
use vstd::std_specs::hash::obeys_key_model;

verus! {

/// The hash builder of `rustc_hash`.
#[verifier::external_type_specification]
#[verifier::external_body]
pub struct ExFxBuildHasher(FxBuildHasher);

/// `HashMap::with_capacity_and_hasher` with the Fx builder: an empty map.
#[verifier::external_body]
pub(crate) fn map_with_capacity<K, V>(capacity: usize) -> (table: FxHashMap<K, V>)
    ensures
        table@.dom() == Set::<K>::empty(),
{
    FxHashMap::with_capacity_and_hasher(capacity, FxBuildHasher)
}

/// `HashMap::insert`: afterwards the map holds `value` under `key` and is
/// otherwise as before. The value that was there before is handed back.
#[verifier::external_body]
pub(crate) fn map_insert<K: Eq + Hash, V>(table: &mut FxHashMap<K, V>, key: K, value: V) -> (before:
    Option<V>)
    requires
        obeys_key_model::<K>(),
    ensures
        final(table)@ == old(table)@.insert(key, value),
        match before {
            Some(v) => old(table)@.contains_key(key) && v == old(table)@[key],
            None => !old(table)@.contains_key(key),
        },
{
    table.insert(key, value)
}

/// `HashMap::get`: the value held under `key`, if there is one.
#[verifier::external_body]
pub(crate) fn map_get<'a, K: Eq + Hash, V>(table: &'a FxHashMap<K, V>, key: &K) -> (found: Option<
    &'a V,
>)
    requires
        obeys_key_model::<K>(),
    ensures
        match found {
            Some(v) => table@.contains_key(*key) && *v == table@[*key],
            None => !table@.contains_key(*key),
        },
{
    table.get(key)
}

/// `HashMap::iter`, collected: every pair of the map once, in an order that
/// the map chooses.
#[verifier::external_body]
pub(crate) fn map_entries<K: Eq + Hash + Copy, V: Copy>(table: &FxHashMap<K, V>) -> (entries: Vec<
    (K, V),
>)
    requires
        obeys_key_model::<K>(),
    ensures
        forall|i: int|
            0 <= i < entries@.len() ==> table@.contains_key(#[trigger] entries@[i].0) && table@[entries@[i].0]
                == entries@[i].1,
        forall|i: int, j: int|
            0 <= i < j < entries@.len() ==> #[trigger] entries@[i].0 != #[trigger] entries@[j].0,
        forall|key: K| #[trigger]
            table@.contains_key(key) ==> exists|i: int|
                0 <= i < entries@.len() && #[trigger] entries@[i].0 == key,
{
    table.iter().map(|(k, v)| (*k, *v)).collect()
}

/// `HashSet::default` with the Fx builder: an empty set.
#[verifier::external_body]
pub(crate) fn set_new<K>() -> (keys_held: FxHashSet<K>)
    ensures
        keys_held@ == Set::<K>::empty(),
{
    FxHashSet::default()
}

/// `HashSet::insert`: afterwards the set holds `key` and what it held.
#[verifier::external_body]
pub(crate) fn set_insert<K: Eq + Hash>(keys_held: &mut FxHashSet<K>, key: K) -> (added: bool)
    requires
        obeys_key_model::<K>(),
    ensures
        final(keys_held)@ == old(keys_held)@.insert(key),
        added == !old(keys_held)@.contains(key),
{
    keys_held.insert(key)
}

/// `HashSet::remove`: afterwards the set holds what it held, without `key`.
#[verifier::external_body]
pub(crate) fn set_remove<K: Eq + Hash>(keys_held: &mut FxHashSet<K>, key: &K) -> (removed: bool)
    requires
        obeys_key_model::<K>(),
    ensures
        final(keys_held)@ == old(keys_held)@.remove(*key),
        removed == old(keys_held)@.contains(*key),
{
    keys_held.remove(key)
}

/// `HashSet::drain`, collected: the set is emptied, and every key that it
/// held is handed out once, in an order that the set chooses.
#[verifier::external_body]
pub(crate) fn set_drain<K: Eq + Hash>(keys_held: &mut FxHashSet<K>) -> (keys: Vec<K>)
    requires
        obeys_key_model::<K>(),
    ensures
        final(keys_held)@ == Set::<K>::empty(),
        keys@.no_duplicates(),
        forall|key: K| #[trigger] keys@.contains(key) <==> old(keys_held)@.contains(key),
{
    keys_held.drain().collect()
}

} // verus!
