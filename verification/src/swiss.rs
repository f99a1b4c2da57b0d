//! The Swiss-table map and set that the suite measures, as the harness sees
//! them: opaque tables whose contents are named by a mathematical map or set.
//!
//! Nothing in this file is proved. Each function below hands one call to the
//! `hashbrown` crate and states what that call does to the contents.

use vstd::prelude::*;

verus! {

/// The most entries that a table may be asked to hold or to make room for.
///
/// `hashbrown` panics with "Hash table capacity overflow" when a table would
/// need more than `isize::MAX` bytes. A table that holds `e` entries, or was
/// made with room for `e`, has fewer than `32 * e / 7` slots: the next power
/// of two above `8 * e / 7`, doubled at most once more when it grows while
/// it is more than half full. With 17 bytes to a slot and 16 bytes of
/// padding that is less than `78 * e + 16` bytes, and so below the bound for
/// every `e` up to this one.
pub const SWISS_MAX_ENTRIES: usize = usize::MAX / 256;

/// A `hashbrown::HashMap` from 64-bit keys to 64-bit values.
#[verifier::external_body]
pub struct SwissMap {
    inner: hashbrown::HashMap<i64, i64>,
}

/// The entries that a table holds.
pub uninterp spec fn swiss_map_contents(m: SwissMap) -> Map<i64, i64>;

impl View for SwissMap {
    type V = Map<i64, i64>;

    open spec fn view(&self) -> Map<i64, i64> {
        swiss_map_contents(*self)
    }
}

/// The map without entries.
pub open spec fn no_entries() -> Map<i64, i64> {
    Map::empty()
}

/// The set without members.
pub open spec fn no_members() -> Set<i64> {
    Set::empty()
}

/// What a lookup of `k` in `m` gives.
pub open spec fn lookup(m: Map<i64, i64>, k: i64) -> Option<i64> {
    if m.contains_key(k) {
        Some(m[k])
    } else {
        None
    }
}

impl SwissMap {
    /// `hashbrown::HashMap::new`: a table without entries.
    #[verifier::external_body]
    pub(crate) fn new() -> (m: SwissMap)
        ensures
            swiss_map_contents(m) == no_entries(),
    {
        SwissMap { inner: hashbrown::HashMap::new() }
    }

    /// `hashbrown::HashMap::with_capacity`: a table without entries, with
    /// room for `capacity` of them.
    #[verifier::external_body]
    pub(crate) fn with_capacity(capacity: usize) -> (m: SwissMap)
        requires
            capacity <= SWISS_MAX_ENTRIES,
        ensures
            swiss_map_contents(m) == no_entries(),
    {
        SwissMap { inner: hashbrown::HashMap::with_capacity(capacity) }
    }

    /// `hashbrown::HashMap::insert`: `k` now maps to `v`; the value that it
    /// mapped to before is returned.
    #[verifier::external_body]
    pub(crate) fn insert(&mut self, k: i64, v: i64) -> (previous: Option<i64>)
        requires
            swiss_map_contents(*old(self)).dom().finite(),
            swiss_map_contents(*old(self)).dom().len() < SWISS_MAX_ENTRIES,
        ensures
            swiss_map_contents(*final(self)) == swiss_map_contents(*old(self)).insert(k, v),
            previous == lookup(swiss_map_contents(*old(self)), k),
    {
        self.inner.insert(k, v)
    }

    /// `hashbrown::HashMap::get`: the value that `k` maps to, if any.
    #[verifier::external_body]
    pub(crate) fn get(&self, k: i64) -> (found: Option<i64>)
        ensures
            found == lookup(swiss_map_contents(*self), k),
    {
        self.inner.get(&k).copied()
    }

    /// `hashbrown::HashMap::remove`: `k` maps to nothing any more; the value
    /// that it mapped to before is returned.
    #[verifier::external_body]
    pub(crate) fn remove(&mut self, k: i64) -> (previous: Option<i64>)
        ensures
            swiss_map_contents(*final(self)) == swiss_map_contents(*old(self)).remove(k),
            previous == lookup(swiss_map_contents(*old(self)), k),
    {
        self.inner.remove(&k)
    }
}

/// `hashbrown::hash_map::Iter`: a walk over the entries of a table, in an
/// order that the table chooses.
#[verifier::external_type_specification]
#[verifier::external_body]
#[verifier::reject_recursive_types(K)]
#[verifier::reject_recursive_types(V)]
pub struct ExSwissIter<'a, K, V>(hashbrown::hash_map::Iter<'a, K, V>);

/// The entries that a walk has yet to hand out.
pub uninterp spec fn swiss_iter_pending(it: hashbrown::hash_map::Iter<'_, i64, i64>) -> Map<
    i64,
    i64,
>;

/// `hashbrown::HashMap::iter`: a walk that has every entry of the table yet
/// to hand out.
#[verifier::external_body]
pub(crate) fn swiss_map_iter(m: &SwissMap) -> (it: hashbrown::hash_map::Iter<'_, i64, i64>)
    ensures
        swiss_iter_pending(it) == swiss_map_contents(*m),
{
    m.inner.iter()
}

/// `Iterator::next` of `hashbrown::hash_map::Iter`: hands out one pending
/// entry, whichever the table chooses, or `None` when none is pending.
#[verifier::external_body]
pub(crate) fn swiss_iter_next(it: &mut hashbrown::hash_map::Iter<'_, i64, i64>) -> (item: Option<
    (i64, i64),
>)
    ensures
        match item {
            Some((k, v)) => swiss_iter_pending(*old(it)).contains_pair(k, v)
                && swiss_iter_pending(*final(it)) == swiss_iter_pending(*old(it)).remove(k),
            None => swiss_iter_pending(*old(it)) == no_entries()
                && swiss_iter_pending(*final(it)) == no_entries(),
        },
{
    match it.next() {
        Some((k, v)) => Some((*k, *v)),
        None => None,
    }
}

/// `hashbrown::hash_map::Keys`: a walk over the keys of a table, in an order
/// that the table chooses.
#[verifier::external_type_specification]
#[verifier::external_body]
#[verifier::reject_recursive_types(K)]
#[verifier::reject_recursive_types(V)]
pub struct ExSwissKeys<'a, K, V>(hashbrown::hash_map::Keys<'a, K, V>);

/// The keys that a walk has yet to hand out.
pub uninterp spec fn swiss_keys_pending(it: hashbrown::hash_map::Keys<'_, i64, i64>) -> Set<i64>;

/// `hashbrown::HashMap::keys`: a walk that has every key of the table yet to
/// hand out.
#[verifier::external_body]
pub(crate) fn swiss_map_keys(m: &SwissMap) -> (it: hashbrown::hash_map::Keys<'_, i64, i64>)
    ensures
        swiss_keys_pending(it) == swiss_map_contents(*m).dom(),
{
    m.inner.keys()
}

/// `Iterator::next` of `hashbrown::hash_map::Keys`: hands out one pending
/// key, whichever the table chooses, or `None` when none is pending.
#[verifier::external_body]
pub(crate) fn swiss_keys_next(it: &mut hashbrown::hash_map::Keys<'_, i64, i64>) -> (item: Option<
    i64,
>)
    ensures
        match item {
            Some(k) => swiss_keys_pending(*old(it)).contains(k)
                && swiss_keys_pending(*final(it)) == swiss_keys_pending(*old(it)).remove(k),
            None => swiss_keys_pending(*old(it)) == no_members()
                && swiss_keys_pending(*final(it)) == no_members(),
        },
{
    match it.next() {
        Some(k) => Some(*k),
        None => None,
    }
}

impl SwissMap {
    /// `hashbrown::HashMap::entry` followed by `Entry::or_insert`: the slot
    /// of `key`, which holds `default` where the key was absent. What the
    /// caller leaves in the slot is what the key maps to afterwards. The
    /// entry between the two calls is of a type with an allocator parameter,
    /// which has no declaration here, so both calls stand in one function.
    #[verifier::external_body]
    pub(crate) fn entry_or_insert(&mut self, key: i64, default: i64) -> (slot: &mut i64)
        requires
            swiss_map_contents(*old(self)).dom().finite(),
            swiss_map_contents(*old(self)).dom().len() < SWISS_MAX_ENTRIES,
        ensures
            swiss_map_contents(*old(self)).contains_key(key) ==> *slot == swiss_map_contents(
                *old(self),
            )[key],
            !swiss_map_contents(*old(self)).contains_key(key) ==> *slot == default,
            swiss_map_contents(*final(self)) == swiss_map_contents(*old(self)).insert(
                key,
                *final(slot),
            ),
    {
        self.inner.entry(key).or_insert(default)
    }
}

/// A `hashbrown::HashSet` of 64-bit values.
#[verifier::external_body]
pub struct SwissSet {
    inner: hashbrown::HashSet<i64>,
}

/// The members that a set holds.
pub uninterp spec fn swiss_set_contents(s: SwissSet) -> Set<i64>;

impl View for SwissSet {
    type V = Set<i64>;

    open spec fn view(&self) -> Set<i64> {
        swiss_set_contents(*self)
    }
}

impl SwissSet {
    /// `hashbrown::HashSet::new`: a set without members.
    #[verifier::external_body]
    pub(crate) fn new() -> (s: SwissSet)
        ensures
            swiss_set_contents(s) == no_members(),
    {
        SwissSet { inner: hashbrown::HashSet::new() }
    }

    /// `hashbrown::HashSet::with_capacity`: a set without members, with room
    /// for `capacity` of them.
    #[verifier::external_body]
    pub(crate) fn with_capacity(capacity: usize) -> (s: SwissSet)
        requires
            capacity <= SWISS_MAX_ENTRIES,
        ensures
            swiss_set_contents(s) == no_members(),
    {
        SwissSet { inner: hashbrown::HashSet::with_capacity(capacity) }
    }

    /// `hashbrown::HashSet::insert`: `k` is now a member; the result says
    /// whether it was none before.
    #[verifier::external_body]
    pub(crate) fn insert(&mut self, k: i64) -> (fresh: bool)
        requires
            swiss_set_contents(*old(self)).finite(),
            swiss_set_contents(*old(self)).len() < SWISS_MAX_ENTRIES,
        ensures
            swiss_set_contents(*final(self)) == swiss_set_contents(*old(self)).insert(k),
            fresh == !swiss_set_contents(*old(self)).contains(k),
    {
        self.inner.insert(k)
    }

    /// `hashbrown::HashSet::contains`: whether `k` is a member.
    #[verifier::external_body]
    pub(crate) fn contains(&self, k: i64) -> (held: bool)
        ensures
            held == swiss_set_contents(*self).contains(k),
    {
        self.inner.contains(&k)
    }

    /// `hashbrown::HashSet::union`, collected into a new set: the values
    /// that are members of `self` or of `other`.
    #[verifier::external_body]
    pub(crate) fn union(&self, other: &SwissSet) -> (both: SwissSet)
        requires
            swiss_set_contents(*self).finite(),
            swiss_set_contents(*other).finite(),
            swiss_set_contents(*self).len() + swiss_set_contents(*other).len()
                <= SWISS_MAX_ENTRIES,
        ensures
            swiss_set_contents(both) == swiss_set_contents(*self).union(
                swiss_set_contents(*other),
            ),
    {
        SwissSet { inner: self.inner.union(&other.inner).copied().collect() }
    }

    /// `hashbrown::HashSet::intersection`, collected into a new set: the
    /// values that are members of both `self` and `other`.
    #[verifier::external_body]
    pub(crate) fn intersection(&self, other: &SwissSet) -> (common: SwissSet)
        requires
            swiss_set_contents(*self).finite(),
            swiss_set_contents(*other).finite(),
            swiss_set_contents(*self).len() <= SWISS_MAX_ENTRIES,
            swiss_set_contents(*other).len() <= SWISS_MAX_ENTRIES,
        ensures
            swiss_set_contents(common) == swiss_set_contents(*self).intersect(
                swiss_set_contents(*other),
            ),
    {
        SwissSet { inner: self.inner.intersection(&other.inner).copied().collect() }
    }
}

} // verus!
