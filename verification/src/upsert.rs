//! Maps that take a value under a key whether or not the key is there.

use vstd::prelude::*;
use std::collections::HashMap;

verus! {

/// A map in which a value can be put under a key, in place of the value
/// that the key had, if any.
pub trait Upsertable<K, V> {
    /// What the map holds.
    spec fn entries(&self) -> Map<K, V>;

    /// Puts `value` under `key`.
    fn upsert(&mut self, key: K, value: V)
        ensures
            final(self).entries() == old(self).entries().insert(key, value),
    ;
}

/// A map of sums, to which a value can be added under a key: a key that
/// is not there counts as zero.
pub trait UpsertAddable<K, V> {
    /// What the map holds.
    spec fn sums(&self) -> Map<K, V>;

    /// The value that a key which is not there counts as.
    spec fn zero() -> V;

    /// The sum of two values.
    spec fn sum(held: V, value: V) -> V;

    /// The sum of the two values can be held.
    spec fn fits(held: V, value: V) -> bool;

    /// Adds `value` to the sum under `key`.
    fn upsert_add(&mut self, key: K, value: V)
        requires
            Self::fits(
                if old(self).sums().contains_key(key) {
                    old(self).sums()[key]
                } else {
                    Self::zero()
                },
                value,
            ),
        ensures
            final(self).sums() == old(self).sums().insert(
                key,
                Self::sum(
                    if old(self).sums().contains_key(key) {
                        old(self).sums()[key]
                    } else {
                        Self::zero()
                    },
                    value,
                ),
            ),
    ;
}

impl<V> Upsertable<i64, V> for HashMap<i64, V> {
    open spec fn entries(&self) -> Map<i64, V> {
        self@
    }

    fn upsert(&mut self, key: i64, value: V) {
        broadcast use vstd::std_specs::hash::group_hash_axioms;

        self.insert(key, value);
    }
}

impl UpsertAddable<i64, u128> for HashMap<i64, u128> {
    open spec fn sums(&self) -> Map<i64, u128> {
        self@
    }

    open spec fn zero() -> u128 {
        0
    }

    open spec fn sum(held: u128, value: u128) -> u128 {
        (held + value) as u128
    }

    open spec fn fits(held: u128, value: u128) -> bool {
        held + value <= u128::MAX
    }

    fn upsert_add(&mut self, key: i64, value: u128) {
        broadcast use vstd::std_specs::hash::group_hash_axioms;

        let existing: u128 = match self.get(&key) {
            Some(sum) => *sum,
            None => 0,
        };
        self.insert(key, existing + value);
    }
}

} // verus!
