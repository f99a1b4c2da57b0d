//! The operations that a benchmark case asks of a set of 64-bit values,
//! whichever backend provides it.

use vstd::prelude::*;
use vstd::std_specs::hash::*;
use vstd::std_specs::iter::IteratorSpec;
use crate::swiss::{no_members, SwissSet, SWISS_MAX_ENTRIES};

verus! {

broadcast use vstd::std_specs::hash::group_hash_axioms;

/// The baseline set of the standard library.
pub type StdSet = std::collections::HashSet<i64>;

/// A set under measurement.
pub trait Members: Sized {
    /// The values that the set holds.
    spec fn members(&self) -> Set<i64>;

    /// A set without members.
    fn empty() -> (s: Self)
        ensures
            s.members() == no_members(),
    ;

    /// A set without members, with room for `capacity` of them.
    fn with_room(capacity: usize) -> (s: Self)
        requires
            capacity <= SWISS_MAX_ENTRIES,
        ensures
            s.members() == no_members(),
    ;

    /// Makes `k` a member, and says whether it was none before.
    fn put(&mut self, k: i64) -> (fresh: bool)
        requires
            old(self).members().finite(),
            old(self).members().len() < SWISS_MAX_ENTRIES,
        ensures
            final(self).members() == old(self).members().insert(k),
            fresh == !old(self).members().contains(k),
    ;

    /// Whether `k` is a member.
    fn has(&self, k: i64) -> (held: bool)
        ensures
            held == self.members().contains(k),
    ;

    /// A new set of the values that are members of `self` or of `other`.
    fn union_with(&self, other: &Self) -> (both: Self)
        requires
            self.members().finite(),
            other.members().finite(),
            self.members().len() + other.members().len() <= SWISS_MAX_ENTRIES,
        ensures
            both.members() == self.members().union(other.members()),
    ;

    /// A new set of the values that are members of both `self` and `other`.
    fn intersection_with(&self, other: &Self) -> (common: Self)
        requires
            self.members().finite(),
            other.members().finite(),
            self.members().len() <= SWISS_MAX_ENTRIES,
            other.members().len() <= SWISS_MAX_ENTRIES,
        ensures
            common.members() == self.members().intersect(other.members()),
    ;
}

impl Members for SwissSet {
    open spec fn members(&self) -> Set<i64> {
        self@
    }

    fn empty() -> (s: Self) {
        SwissSet::new()
    }

    fn with_room(capacity: usize) -> (s: Self) {
        SwissSet::with_capacity(capacity)
    }

    fn put(&mut self, k: i64) -> (fresh: bool) {
        self.insert(k)
    }

    fn has(&self, k: i64) -> (held: bool) {
        self.contains(k)
    }

    fn union_with(&self, other: &Self) -> (both: Self) {
        self.union(other)
    }

    fn intersection_with(&self, other: &Self) -> (common: Self) {
        self.intersection(other)
    }
}

/// The values among the first `upto` of `order`.
pub open spec fn walked(order: Seq<&i64>, upto: int) -> Set<i64> {
    Set::new(|x: i64| exists|j: int| 0 <= j < upto && *(#[trigger] order[j]) == x)
}

/// A walk that is over has handed out every member, and nothing else.
proof fn lemma_walked_all(order: Seq<&i64>, members: Set<i64>)
    requires
        order.unref().to_set() == members,
    ensures
        walked(order, order.len() as int) == members,
{
    let all = walked(order, order.len() as int);
    assert forall|x: i64| members.contains(x) implies all.contains(x) by {
        assert(order.unref().to_set().contains(x));
        let j = choose|j: int| 0 <= j < order.unref().len() && order.unref()[j] == x;
        assert(*order[j] == x);
    }
    assert forall|x: i64| all.contains(x) implies members.contains(x) by {
        let j = choose|j: int| 0 <= j < order.len() && *(#[trigger] order[j]) == x;
        assert(order.unref()[j] == x);
        assert(order.unref().to_set().contains(x));
    }
    assert(all =~= members);
}

/// One more step of a walk hands out one more value.
proof fn lemma_walked_step(order: Seq<&i64>, upto: int)
    requires
        0 <= upto < order.len(),
    ensures
        walked(order, upto + 1) == walked(order, upto).insert(*order[upto]),
{
    let next = *order[upto];
    assert forall|x: i64| walked(order, upto + 1).contains(x) implies walked(order, upto).insert(
        next,
    ).contains(x) by {
        let j = choose|j: int| 0 <= j < upto + 1 && *(#[trigger] order[j]) == x;
        if j < upto {
            assert(walked(order, upto).contains(x));
        }
    }
    assert forall|x: i64| walked(order, upto).insert(next).contains(x) implies walked(
        order,
        upto + 1,
    ).contains(x) by {
        if x == next {
            assert(*order[upto] == x);
        } else {
            let j = choose|j: int| 0 <= j < upto && *(#[trigger] order[j]) == x;
            assert(*order[j] == x);
        }
    }
    assert(walked(order, upto + 1) =~= walked(order, upto).insert(next));
}

impl Members for StdSet {
    open spec fn members(&self) -> Set<i64> {
        self@
    }

    fn empty() -> (s: Self) {
        std::collections::HashSet::new()
    }

    fn with_room(capacity: usize) -> (s: Self) {
        std::collections::HashSet::with_capacity(capacity)
    }

    fn put(&mut self, k: i64) -> (fresh: bool) {
        self.insert(k)
    }

    fn has(&self, k: i64) -> (held: bool) {
        self.contains(&k)
    }

    fn union_with(&self, other: &Self) -> (both: Self) {
        let mut both: StdSet = std::collections::HashSet::new();
        for k in it: self.iter()
            invariant
                it.seq() == spec_hash_keys_iter(self).remaining(),
                both@ == walked(it.seq(), it.index()),
        {
            proof {
                lemma_walked_step(it.seq(), it.index());
            }
            both.insert(*k);
        }
        proof {
            lemma_walked_all(spec_hash_keys_iter(self).remaining(), self@);
        }
        for k in it: other.iter()
            invariant
                it.seq() == spec_hash_keys_iter(other).remaining(),
                both@ == self@.union(walked(it.seq(), it.index())),
        {
            proof {
                lemma_walked_step(it.seq(), it.index());
                assert(self@.union(walked(it.seq(), it.index())).insert(*k) =~= self@.union(
                    walked(it.seq(), it.index() + 1),
                ));
            }
            both.insert(*k);
        }
        proof {
            lemma_walked_all(spec_hash_keys_iter(other).remaining(), other@);
        }
        both
    }

    fn intersection_with(&self, other: &Self) -> (common: Self) {
        let mut common: StdSet = std::collections::HashSet::new();
        for k in it: self.iter()
            invariant
                it.seq() == spec_hash_keys_iter(self).remaining(),
                common@ == walked(it.seq(), it.index()).intersect(other@),
        {
            proof {
                lemma_walked_step(it.seq(), it.index());
                let before = walked(it.seq(), it.index());
                if other@.contains(*k) {
                    assert(before.intersect(other@).insert(*k) =~= before.insert(*k).intersect(
                        other@,
                    ));
                } else {
                    assert(before.intersect(other@) =~= before.insert(*k).intersect(other@));
                }
            }
            if other.contains(k) {
                common.insert(*k);
            }
        }
        proof {
            lemma_walked_all(spec_hash_keys_iter(self).remaining(), self@);
        }
        common
    }
}

} // verus!
