//! Hash maps and hash sets of `ahash`, keyed by the numbers that stand for
//! states, and the items of a set of `ahash` that a caller hands in. What
//! this module states of them is believed, not proved.

use std::collections::{HashMap, HashSet};
use std::hash::Hash;
use vstd::prelude::*;

verus! {

/// `ahash::RandomState`, the hasher factory of the maps and sets below.
/// Nothing is known of a value of it.
#[verifier::external_type_specification]
#[verifier::external_body]
pub struct ExRandomState(ahash::RandomState);

/// A map from keys to costs.
pub type CostMap = HashMap<u128, usize, ahash::RandomState>;

/// A set of keys.
pub type KeySet = HashSet<u128, ahash::RandomState>;

/// The map that holds nothing.
pub open spec fn no_costs() -> Map<u128, usize> {
    Map::empty()
}

/// `ahash::HashMap::default()`: a new map, which holds nothing.
#[verifier::external_body]
pub(crate) fn cost_map_new() -> (m: CostMap)
    ensures
        m@ == no_costs(),
{
    HashMap::default()
}

/// `HashMap::get` on a map of `ahash`: the value stored under `key`, if
/// there is one.
#[verifier::external_body]
pub(crate) fn cost_map_get(m: &CostMap, key: u128) -> (r: Option<usize>)
    ensures
        r == (if m@.contains_key(key) {
            Some(m@[key])
        } else {
            None
        }),
{
    m.get(&key).copied()
}

/// `HashMap::insert` on a map of `ahash`: afterwards the map holds `value`
/// under `key`, and under every other key what it held before.
#[verifier::external_body]
pub(crate) fn cost_map_insert(m: &mut CostMap, key: u128, value: usize)
    ensures
        final(m)@ == old(m)@.insert(key, value),
{
    m.insert(key, value);
}

/// `HashMap::len` on a map of `ahash`: the number of keys.
#[verifier::external_body]
pub(crate) fn cost_map_len(m: &CostMap) -> (n: usize)
    ensures
        n == m@.dom().len(),
{
    m.len()
}

/// `ahash::HashSet::default()`: a new set, which holds nothing.
#[verifier::external_body]
pub(crate) fn key_set_new() -> (s: KeySet)
    ensures
        s@ == Set::<u128>::empty(),
{
    HashSet::default()
}

/// `HashSet::contains` on a set of `ahash`.
#[verifier::external_body]
pub(crate) fn key_set_contains(s: &KeySet, key: u128) -> (r: bool)
    ensures
        r == s@.contains(key),
{
    s.contains(&key)
}

/// `HashSet::insert` on a set of `ahash`: afterwards the set holds `key`
/// and what it held before; the result says whether `key` is new.
#[verifier::external_body]
pub(crate) fn key_set_insert(s: &mut KeySet, key: u128) -> (fresh: bool)
    ensures
        final(s)@ == old(s)@.insert(key),
        fresh == !old(s)@.contains(key),
{
    s.insert(key)
}

/// `HashSet::iter` on a set of `ahash`, each item copied into a list: the
/// list holds the items of the set and nothing else. Nothing is said of
/// their order, which differs from one run to the next.
#[verifier::external_body]
pub(crate) fn set_items<T: Copy + Eq + Hash>(s: &HashSet<T, ahash::RandomState>) -> (out: Vec<T>)
    ensures
        out@.to_set() == s@,
{
    s.iter().copied().collect()
}

} // verus!
