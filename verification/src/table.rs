//! The operations that a benchmark case asks of a map from 64-bit keys to
//! 64-bit values, whichever backend provides it.

use vstd::prelude::*;
use vstd::std_specs::hash::*;
use vstd::std_specs::iter::IteratorSpec;
use crate::checksum::{
    crop, entries_total, lemma_crop_of_i64, lemma_members_total_insert, lemma_part_total_insert,
    lemma_totals_of_nothing, lemma_wrapping_add_crop, members_total, part_total,
};
use crate::swiss::{
    lookup, no_entries, swiss_iter_next, swiss_iter_pending, swiss_keys_next, swiss_keys_pending,
    swiss_map_iter, swiss_map_keys, SwissMap, SWISS_MAX_ENTRIES,
};

verus! {

broadcast use vstd::std_specs::hash::group_hash_axioms;

/// The baseline map of the standard library.
pub type StdMap = std::collections::HashMap<i64, i64>;

/// The value that `m` holds under `k`, or 0 where it holds none.
pub open spec fn held(m: Map<i64, i64>, k: i64) -> int {
    if m.contains_key(k) {
        m[k] as int
    } else {
        0
    }
}

/// A map under measurement.
pub trait Table: Sized {
    /// The entries that the map holds.
    spec fn entries(&self) -> Map<i64, i64>;

    /// A map without entries.
    fn empty() -> (t: Self)
        ensures
            t.entries() == no_entries(),
    ;

    /// A map without entries, with room for `capacity` of them.
    fn with_room(capacity: usize) -> (t: Self)
        requires
            capacity <= SWISS_MAX_ENTRIES,
        ensures
            t.entries() == no_entries(),
    ;

    /// Lets `k` map to `v`, and returns what it mapped to before.
    fn put(&mut self, k: i64, v: i64) -> (previous: Option<i64>)
        requires
            old(self).entries().dom().finite(),
            old(self).entries().dom().len() < SWISS_MAX_ENTRIES,
        ensures
            final(self).entries() == old(self).entries().insert(k, v),
            previous == lookup(old(self).entries(), k),
    ;

    /// What `k` maps to, if anything.
    fn find(&self, k: i64) -> (found: Option<i64>)
        ensures
            found == lookup(self.entries(), k),
    ;

    /// Removes `k`, and returns what it mapped to.
    fn take(&mut self, k: i64) -> (previous: Option<i64>)
        ensures
            final(self).entries() == old(self).entries().remove(k),
            previous == lookup(old(self).entries(), k),
    ;

    /// Counts `k` once more: an absent key enters with the count 1.
    fn bump(&mut self, k: i64)
        requires
            old(self).entries().dom().finite(),
            old(self).entries().dom().len() < SWISS_MAX_ENTRIES,
            held(old(self).entries(), k) < i64::MAX,
        ensures
            final(self).entries() == old(self).entries().insert(
                k,
                (held(old(self).entries(), k) + 1) as i64,
            ),
    ;

    /// Walks over all entries and adds up their keys and values, with
    /// wraparound.
    fn sum_entries(&self) -> (sum: i64)
        requires
            self.entries().dom().finite(),
        ensures
            sum == crop(entries_total(self.entries())),
    ;

    /// Walks over all keys and adds them up, with wraparound.
    fn sum_keys(&self) -> (sum: i64)
        requires
            self.entries().dom().finite(),
        ensures
            sum == crop(members_total(self.entries().dom())),
    ;
}

impl Table for SwissMap {
    open spec fn entries(&self) -> Map<i64, i64> {
        self@
    }

    fn empty() -> (t: Self) {
        SwissMap::new()
    }

    fn with_room(capacity: usize) -> (t: Self) {
        SwissMap::with_capacity(capacity)
    }

    fn put(&mut self, k: i64, v: i64) -> (previous: Option<i64>) {
        self.insert(k, v)
    }

    fn find(&self, k: i64) -> (found: Option<i64>) {
        self.get(k)
    }

    fn take(&mut self, k: i64) -> (previous: Option<i64>) {
        self.remove(k)
    }

    fn bump(&mut self, k: i64) {
        let slot = self.entry_or_insert(k, 0);
        *slot = *slot + 1;
    }

    fn sum_entries(&self) -> (sum: i64) {
        let mut sum: i64 = 0;
        let mut it = swiss_map_iter(self);
        let ghost mut seen: Set<i64> = Set::empty();
        proof {
            lemma_crop_of_i64(0);
            lemma_totals_of_nothing(self@);
        }
        loop
            invariant
                self@.dom().finite(),
                seen.finite(),
                swiss_iter_pending(it).submap_of(self@),
                swiss_iter_pending(it).dom().disjoint(seen),
                swiss_iter_pending(it).dom().union(seen) == self@.dom(),
                sum == crop(part_total(self@, seen)),
            ensures
                sum == crop(entries_total(self@)),
            decreases swiss_iter_pending(it).dom().len(),
        {
            let ghost pending = swiss_iter_pending(it);
            match swiss_iter_next(&mut it) {
                Some((k, v)) => {
                    proof {
                        assert(pending.contains_pair(k, v));
                        assert(pending.dom().contains(k));
                        assert(pending[k] == v);
                        assert(self@.dom().contains(k));
                        assert(self@[k] == v);
                        lemma_part_total_insert(self@, seen, k);
                        lemma_wrapping_add_crop(part_total(self@, seen), k);
                        lemma_wrapping_add_crop(part_total(self@, seen) + k, v);
                        assert(pending.dom().finite()) by {
                            vstd::set_lib::lemma_len_subset(pending.dom(), self@.dom());
                        }
                        seen = seen.insert(k);
                        assert(swiss_iter_pending(it).dom().union(seen) =~= self@.dom());
                        assert(swiss_iter_pending(it).submap_of(self@)) by {
                            assert(pending.submap_of(self@));
                            assert(swiss_iter_pending(it) == pending.remove(k));
                        }
                    }
                    sum = sum.wrapping_add(k).wrapping_add(v);
                },
                None => {
                    assert(seen =~= self@.dom());
                    break;
                },
            }
        }
        sum
    }

    fn sum_keys(&self) -> (sum: i64) {
        let mut sum: i64 = 0;
        let mut it = swiss_map_keys(self);
        let ghost mut seen: Set<i64> = Set::empty();
        proof {
            lemma_crop_of_i64(0);
            lemma_totals_of_nothing(self@);
        }
        loop
            invariant
                self@.dom().finite(),
                seen.finite(),
                swiss_keys_pending(it).disjoint(seen),
                swiss_keys_pending(it).union(seen) == self@.dom(),
                sum == crop(members_total(seen)),
            ensures
                sum == crop(members_total(self@.dom())),
            decreases swiss_keys_pending(it).len(),
        {
            let ghost pending = swiss_keys_pending(it);
            match swiss_keys_next(&mut it) {
                Some(k) => {
                    proof {
                        lemma_members_total_insert(seen, k);
                        lemma_wrapping_add_crop(members_total(seen), k);
                        assert(pending.finite()) by {
                            vstd::set_lib::lemma_len_subset(pending, self@.dom());
                        }
                        seen = seen.insert(k);
                        assert(swiss_keys_pending(it).union(seen) =~= self@.dom());
                    }
                    sum = sum.wrapping_add(k);
                },
                None => {
                    assert(seen =~= self@.dom());
                    break;
                },
            }
        }
        sum
    }
}

impl Table for StdMap {
    open spec fn entries(&self) -> Map<i64, i64> {
        self@
    }

    fn empty() -> (t: Self) {
        std::collections::HashMap::new()
    }

    fn with_room(capacity: usize) -> (t: Self) {
        std::collections::HashMap::with_capacity(capacity)
    }

    fn put(&mut self, k: i64, v: i64) -> (previous: Option<i64>) {
        self.insert(k, v)
    }

    fn find(&self, k: i64) -> (found: Option<i64>) {
        match self.get(&k) {
            Some(v) => Some(*v),
            None => None,
        }
    }

    fn take(&mut self, k: i64) -> (previous: Option<i64>) {
        self.remove(&k)
    }

    fn bump(&mut self, k: i64) {
        let slot = self.entry(k).or_insert(0);
        *slot = *slot + 1;
    }

    fn sum_entries(&self) -> (sum: i64) {
        let mut sum: i64 = 0;
        let ghost mut seen: Set<i64> = Set::empty();
        proof {
            lemma_crop_of_i64(0);
            lemma_totals_of_nothing(self@);
        }
        for pair in it: self.iter()
            invariant
                self@.dom().finite(),
                it.seq() == spec_hash_map_iter(self).remaining(),
                it.seq().no_duplicates(),
                seen.finite(),
                forall|k: i64|
                    seen.contains(k) <==> exists|j: int|
                        0 <= j < it.index() && *(#[trigger] it.seq()[j]).0 == k,
                sum == crop(part_total(self@, seen)),
        {
            let (k, v) = pair;
            proof {
                let order = it.seq();
                let i = it.index();
                assert(self@.contains_key(*order[i].0) && self@[*order[i].0] == *order[i].1);
                if seen.contains(*k) {
                    let j = choose|j: int| 0 <= j < i && *(#[trigger] order[j]).0 == *k;
                    assert(self@.contains_key(*order[j].0) && self@[*order[j].0] == *order[j].1);
                    assert(order[j] == order[i]);
                }
                lemma_part_total_insert(self@, seen, *k);
                lemma_wrapping_add_crop(part_total(self@, seen), *k);
                lemma_wrapping_add_crop(part_total(self@, seen) + *k, *v);
                seen = seen.insert(*k);
            }
            sum = sum.wrapping_add(*k).wrapping_add(*v);
        }
        proof {
            assert(seen =~= self@.dom());
        }
        sum
    }

    fn sum_keys(&self) -> (sum: i64) {
        let mut sum: i64 = 0;
        let ghost mut seen: Set<i64> = Set::empty();
        proof {
            lemma_crop_of_i64(0);
            lemma_totals_of_nothing(self@);
        }
        for k in it: self.keys()
            invariant
                self@.dom().finite(),
                it.seq() == spec_keys_iter(self).remaining(),
                seen.finite(),
                forall|x: i64|
                    seen.contains(x) <==> exists|j: int|
                        0 <= j < it.index() && *(#[trigger] it.seq()[j]) == x,
                sum == crop(members_total(seen)),
        {
            proof {
                let order = it.seq();
                let i = it.index();
                if seen.contains(*k) {
                    let j = choose|j: int| 0 <= j < i && *(#[trigger] order[j]) == *k;
                    assert(order[j] == order[i]);
                }
                lemma_members_total_insert(seen, *k);
                lemma_wrapping_add_crop(members_total(seen), *k);
                seen = seen.insert(*k);
            }
            sum = sum.wrapping_add(*k);
        }
        proof {
            let order = spec_keys_iter(self).remaining();
            assert forall|x: i64| self@.dom().contains(x) implies seen.contains(x) by {
                assert(order.unref().to_set().contains(x));
                let j = choose|j: int| 0 <= j < order.unref().len() && order.unref()[j] == x;
                assert(*order[j] == x);
            }
            assert forall|x: i64| seen.contains(x) implies self@.dom().contains(x) by {
                let j = choose|j: int| 0 <= j < order.len() && *(#[trigger] order[j]) == x;
                assert(order.unref()[j] == x);
                assert(order.unref().to_set().contains(x));
            }
            assert(seen =~= self@.dom());
        }
        sum
    }
}

} // verus!
