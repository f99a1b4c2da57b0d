//! The units of work that the map cases time: filling, looking up and
//! removing runs of keys, on whichever backend.

use vstd::prelude::*;
use crate::checksum::{crop, lemma_crop_of_i64, lemma_wrapping_add_crop};
use crate::swiss::{no_entries, SWISS_MAX_ENTRIES};
use crate::table::{held, Table};

verus! {

/// The map that takes each key from `lo` up to but not including `hi` to
/// itself.
pub open spec fn identity_range(lo: int, hi: int) -> Map<i64, i64> {
    Map::new(|k: i64| lo <= k < hi, |k: i64| k)
}

/// The map that takes each even key from 0 up to but not including `n` to
/// itself.
pub open spec fn even_identity(n: int) -> Map<i64, i64> {
    Map::new(|k: i64| 0 <= k < n && k % 2 == 0, |k: i64| k)
}

/// The map that takes each of `keys` to itself.
pub open spec fn identity_on(keys: Seq<i64>) -> Map<i64, i64> {
    Map::new(|k: i64| keys.contains(k), |k: i64| k)
}

/// `m` without the keys from `lo` up to but not including `hi`.
pub open spec fn without_range(m: Map<i64, i64>, lo: int, hi: int) -> Map<i64, i64> {
    m.restrict(Set::new(|k: i64| !(lo <= k < hi)))
}

/// `m` without the even keys from 0 up to but not including `n`.
pub open spec fn without_even(m: Map<i64, i64>, n: int) -> Map<i64, i64> {
    m.restrict(Set::new(|k: i64| !(0 <= k < n && k % 2 == 0)))
}

/// The sum of the values that `m` holds under the keys from `lo` up to but
/// not including `hi`.
pub open spec fn range_total(m: Map<i64, i64>, lo: int, hi: int) -> int
    decreases hi - lo,
{
    if hi <= lo {
        0
    } else {
        range_total(m, lo, hi - 1) + held(m, (hi - 1) as i64)
    }
}

/// The number of keys from `lo` up to but not including `hi` that `m` does
/// not hold.
pub open spec fn range_misses(m: Map<i64, i64>, lo: int, hi: int) -> nat
    decreases hi - lo,
{
    if hi <= lo {
        0
    } else if m.contains_key((hi - 1) as i64) {
        range_misses(m, lo, hi - 1)
    } else {
        range_misses(m, lo, hi - 1) + 1
    }
}

/// The sum of the values that `m` holds under `keys`, a key counting as
/// often as it occurs.
pub open spec fn found_total(m: Map<i64, i64>, keys: Seq<i64>) -> int
    decreases keys.len(),
{
    if keys.len() == 0 {
        0
    } else {
        found_total(m, keys.drop_last()) + held(m, keys.last())
    }
}

/// The number of `i` from 0 up to but not including `done` that leave the
/// remainder `k` when divided by `modulus`.
pub open spec fn residue_hits(modulus: int, done: int, k: int) -> int
    decreases done,
{
    if done <= 0 {
        0
    } else if (done - 1) % modulus == k {
        residue_hits(modulus, done - 1, k) + 1
    } else {
        residue_hits(modulus, done - 1, k)
    }
}

/// The map that counts, for each remainder that occurs, how many `i` from 0
/// up to but not including `done` leave it when divided by `modulus`.
pub open spec fn residue_counts(modulus: int, done: int) -> Map<i64, i64> {
    Map::new(
        |k: i64| 0 <= k < modulus && k < done,
        |k: i64| residue_hits(modulus, done, k as int) as i64,
    )
}

/// No remainder is left more often than there are numbers, and a remainder
/// that is not below `done` is not left at all.
pub proof fn lemma_residue_hits_bounds(modulus: int, done: int, k: int)
    requires
        modulus > 0,
        0 <= done,
    ensures
        0 <= residue_hits(modulus, done, k) <= done,
        k >= done ==> residue_hits(modulus, done, k) == 0,
    decreases done,
{
    if done > 0 {
        lemma_residue_hits_bounds(modulus, done - 1, k);
        assert((done - 1) % modulus <= done - 1) by (nonlinear_arith)
            requires
                modulus > 0,
                done - 1 >= 0,
        ;
    }
}

/// Inserts each key from `lo` up to but not including `hi`, with itself as
/// its value.
pub fn fill_range<T: Table>(t: &mut T, lo: usize, hi: usize)
    requires
        lo <= hi <= i64::MAX,
        old(t).entries().dom().finite(),
        old(t).entries().dom().len() + (hi - lo) <= SWISS_MAX_ENTRIES,
    ensures
        final(t).entries() == old(t).entries().union_prefer_right(
            identity_range(lo as int, hi as int),
        ),
        final(t).entries().dom().finite(),
        final(t).entries().dom().len() <= old(t).entries().dom().len() + (hi - lo),
{
    let ghost start = t.entries();
    let mut i: usize = lo;
    while i < hi
        invariant
            lo <= i <= hi <= i64::MAX,
            start.dom().finite(),
            start.dom().len() + (hi - lo) <= SWISS_MAX_ENTRIES,
            t.entries() == start.union_prefer_right(identity_range(lo as int, i as int)),
            t.entries().dom().finite(),
            t.entries().dom().len() <= start.dom().len() + (i - lo),
        decreases hi - i,
    {
        let ghost before = t.entries();
        t.put(i as i64, i as i64);
        assert(t.entries() =~= start.union_prefer_right(
            identity_range(lo as int, (i + 1) as int),
        ));
        assert(t.entries().dom() =~= before.dom().insert(i as i64));
        i = i + 1;
    }
}

/// Inserts each of `keys`, with itself as its value.
pub fn fill_keys<T: Table>(t: &mut T, keys: &Vec<i64>)
    requires
        old(t).entries().dom().finite(),
        old(t).entries().dom().len() + keys.len() <= SWISS_MAX_ENTRIES,
    ensures
        final(t).entries() == old(t).entries().union_prefer_right(identity_on(keys@)),
        final(t).entries().dom().finite(),
{
    let ghost start = t.entries();
    let mut i: usize = 0;
    while i < keys.len()
        invariant
            i <= keys.len(),
            start.dom().finite(),
            start.dom().len() + keys.len() <= SWISS_MAX_ENTRIES,
            t.entries() == start.union_prefer_right(identity_on(keys@.take(i as int))),
            t.entries().dom().finite(),
            t.entries().dom().len() <= start.dom().len() + i,
        decreases keys.len() - i,
    {
        let ghost before = t.entries();
        let k: i64 = keys[i];
        t.put(k, k);
        assert(t.entries().dom() =~= before.dom().insert(k));
        let ghost shorter = keys@.take(i as int);
        let ghost longer = keys@.take(i + 1);
        assert forall|x: i64| #[trigger]
            longer.contains(x) <==> (shorter.contains(x) || x == k) by {
            if longer.contains(x) {
                let j = choose|j: int| 0 <= j < longer.len() && longer[j] == x;
                if j < i {
                    assert(shorter[j] == x);
                }
            }
            if shorter.contains(x) {
                let j = choose|j: int| 0 <= j < shorter.len() && shorter[j] == x;
                assert(longer[j] == x);
            }
            if x == k {
                assert(longer[i as int] == x);
            }
        }
        assert(t.entries() =~= start.union_prefer_right(identity_on(keys@.take(i + 1))));
        i = i + 1;
    }
    assert(keys@.take(keys.len() as int) =~= keys@);
}

/// Looks up each key from `lo` up to but not including `hi`, and adds up
/// the values found, with wraparound.
pub fn checksum_range<T: Table>(t: &T, lo: usize, hi: usize) -> (checksum: i64)
    requires
        lo <= hi <= i64::MAX,
    ensures
        checksum == crop(range_total(t.entries(), lo as int, hi as int)),
{
    let mut checksum: i64 = 0;
    let mut i: usize = lo;
    proof {
        lemma_crop_of_i64(0);
    }
    while i < hi
        invariant
            lo <= i <= hi <= i64::MAX,
            checksum == crop(range_total(t.entries(), lo as int, i as int)),
        decreases hi - i,
    {
        proof {
            lemma_wrapping_add_crop(
                range_total(t.entries(), lo as int, i as int),
                held(t.entries(), i as i64) as i64,
            );
        }
        if let Some(v) = t.find(i as i64) {
            checksum = checksum.wrapping_add(v);
        }
        i = i + 1;
    }
    checksum
}

/// Looks up each key from `lo` up to but not including `hi`, and counts
/// those that are not found.
pub fn count_missing_range<T: Table>(t: &T, lo: usize, hi: usize) -> (misses: usize)
    requires
        lo <= hi <= i64::MAX,
    ensures
        misses == range_misses(t.entries(), lo as int, hi as int),
{
    let mut misses: usize = 0;
    let mut i: usize = lo;
    while i < hi
        invariant
            lo <= i <= hi <= i64::MAX,
            misses == range_misses(t.entries(), lo as int, i as int),
            misses <= i - lo,
        decreases hi - i,
    {
        if t.find(i as i64).is_none() {
            misses = misses + 1;
        }
        i = i + 1;
    }
    misses
}

/// Looks up each of `keys`, and adds up the values found, with wraparound.
pub fn checksum_keys<T: Table>(t: &T, keys: &Vec<i64>) -> (checksum: i64)
    ensures
        checksum == crop(found_total(t.entries(), keys@)),
{
    let mut checksum: i64 = 0;
    let mut i: usize = 0;
    proof {
        lemma_crop_of_i64(0);
    }
    while i < keys.len()
        invariant
            i <= keys.len(),
            checksum == crop(found_total(t.entries(), keys@.take(i as int))),
        decreases keys.len() - i,
    {
        proof {
            assert(keys@.take(i + 1).drop_last() =~= keys@.take(i as int));
            lemma_wrapping_add_crop(
                found_total(t.entries(), keys@.take(i as int)),
                held(t.entries(), keys[i as int]) as i64,
            );
        }
        if let Some(v) = t.find(keys[i]) {
            checksum = checksum.wrapping_add(v);
        }
        i = i + 1;
    }
    assert(keys@.take(keys.len() as int) =~= keys@);
    checksum
}

/// Removes each key from `lo` up to but not including `hi`.
pub fn clear_range<T: Table>(t: &mut T, lo: usize, hi: usize)
    requires
        lo <= hi <= i64::MAX,
    ensures
        final(t).entries() == without_range(old(t).entries(), lo as int, hi as int),
{
    let ghost start = t.entries();
    let mut i: usize = lo;
    assert(t.entries() =~= without_range(start, lo as int, lo as int));
    while i < hi
        invariant
            lo <= i <= hi <= i64::MAX,
            t.entries() == without_range(start, lo as int, i as int),
        decreases hi - i,
    {
        t.take(i as i64);
        assert(t.entries() =~= without_range(start, lo as int, (i + 1) as int));
        i = i + 1;
    }
}

/// Removes each even key from 0 up to but not including `n`.
pub fn clear_even<T: Table>(t: &mut T, n: usize)
    requires
        n <= i64::MAX,
    ensures
        final(t).entries() == without_even(old(t).entries(), n as int),
{
    let ghost start = t.entries();
    let steps: usize = n / 2 + n % 2;
    let mut j: usize = 0;
    assert(t.entries() =~= without_even(start, 0));
    while j < steps
        invariant
            j <= steps,
            steps == n / 2 + n % 2,
            n <= i64::MAX,
            t.entries() == without_even(start, 2 * j),
        decreases steps - j,
    {
        t.take((2 * j) as i64);
        assert(t.entries() =~= without_even(start, 2 * (j + 1)));
        j = j + 1;
    }
    assert(t.entries() =~= without_even(start, n as int));
}

/// Inserts each even key from 0 up to but not including `n`, with itself as
/// its value.
pub fn fill_even<T: Table>(t: &mut T, n: usize)
    requires
        n <= i64::MAX,
        old(t).entries().dom().finite(),
        old(t).entries().dom().len() + n <= SWISS_MAX_ENTRIES,
    ensures
        final(t).entries() == old(t).entries().union_prefer_right(even_identity(n as int)),
        final(t).entries().dom().finite(),
{
    let ghost start = t.entries();
    let steps: usize = n / 2 + n % 2;
    let mut j: usize = 0;
    assert(t.entries() =~= start.union_prefer_right(even_identity(0)));
    while j < steps
        invariant
            j <= steps,
            steps == n / 2 + n % 2,
            n <= i64::MAX,
            start.dom().finite(),
            start.dom().len() + n <= SWISS_MAX_ENTRIES,
            t.entries() == start.union_prefer_right(even_identity(2 * j)),
            t.entries().dom().finite(),
            t.entries().dom().len() <= start.dom().len() + j,
        decreases steps - j,
    {
        let ghost before = t.entries();
        t.put((2 * j) as i64, (2 * j) as i64);
        assert(t.entries().dom() =~= before.dom().insert((2 * j) as i64));
        assert(t.entries() =~= start.union_prefer_right(even_identity(2 * (j + 1))));
        j = j + 1;
    }
    assert(t.entries() =~= start.union_prefer_right(even_identity(n as int)));
}

/// Counts, in an empty map, each `i` below `n` under its remainder modulo
/// half of `n`: every key comes up at least twice. With `n` equal to 1 the
/// modulus would be 0.
pub fn count_residues<T: Table>(t: &mut T, n: usize)
    requires
        n != 1,
        n <= SWISS_MAX_ENTRIES,
        old(t).entries() == no_entries(),
    ensures
        final(t).entries() == residue_counts(n as int / 2, n as int),
        final(t).entries().dom().finite(),
{
    let half: usize = n / 2;
    let mut i: usize = 0;
    assert(t.entries() =~= residue_counts(half as int, 0));
    while i < n
        invariant
            i <= n <= SWISS_MAX_ENTRIES,
            half == n / 2,
            n != 1,
            t.entries() == residue_counts(half as int, i as int),
            t.entries().dom().finite(),
            t.entries().dom().len() <= i,
        decreases n - i,
    {
        let ghost before = t.entries();
        let key: i64 = (i % half) as i64;
        proof {
            lemma_residue_hits_bounds(half as int, i as int, key as int);
        }
        t.bump(key);
        proof {
            assert(t.entries().dom() =~= before.dom().insert(key));
            let after = residue_counts(half as int, i + 1);
            assert(t.entries() == before.insert(key, (held(before, key) + 1) as i64));
            assert(key == i as int % half as int);
            assert(0 <= key < half && key <= i && (i < half ==> key == i)) by (nonlinear_arith)
                requires
                    key == i as int % half as int,
                    half > 0,
            ;
            assert(residue_hits(half as int, i + 1, key as int) == residue_hits(
                half as int,
                i as int,
                key as int,
            ) + 1);
            assert forall|k: i64| after.contains_key(k) implies t.entries().contains_key(k)
                && #[trigger] t.entries()[k] == after[k] by {
                lemma_residue_hits_bounds(half as int, i as int, k as int);
                lemma_residue_hits_bounds(half as int, i + 1, k as int);
                if k != key {
                    assert(residue_hits(half as int, i + 1, k as int) == residue_hits(
                        half as int,
                        i as int,
                        k as int,
                    ));
                    assert(before.contains_key(k));
                }
            }
            assert(t.entries() =~= after);
        }
        i = i + 1;
    }
}

} // verus!
