//! Checksums that wrap: a sum of 64-bit values taken with `wrapping_add` is
//! the mathematical sum, reduced to 64 bits.

use vstd::prelude::*;

verus! {

/// `x` reduced to the 64-bit signed value that it is congruent to modulo
/// 2^64.
pub open spec fn crop(x: int) -> i64 {
    let r = x % 0x1_0000_0000_0000_0000;
    if r > i64::MAX {
        (r - 0x1_0000_0000_0000_0000) as i64
    } else {
        r as i64
    }
}

/// A value that fits is left as it is.
pub proof fn lemma_crop_of_i64(x: i64)
    ensures
        crop(x as int) == x,
{
    let m = 0x1_0000_0000_0000_0000int;
    if x >= 0 {
        assert((x as int) % m == x as int);
    } else {
        assert((x as int) % m == x as int + m);
    }
}

/// Adding with wraparound to a reduced sum gives the reduced sum of both.
pub proof fn lemma_wrapping_add_crop(a: int, b: i64)
    ensures
        crop(a).wrapping_add(b) == crop(a + b),
{
    let ra = a % 0x1_0000_0000_0000_0000;
    let rab = (a + b) % 0x1_0000_0000_0000_0000;
    let qa = a / 0x1_0000_0000_0000_0000;
    let qab = (a + b) / 0x1_0000_0000_0000_0000;
    assert(a == 0x1_0000_0000_0000_0000 * qa + ra);
    assert(a + b == 0x1_0000_0000_0000_0000 * qab + rab);
    // rab - ra - b is a multiple of 2^64 that lies within two windows of
    // that width.
    let d = qab - qa;
    assert(rab - ra - b == -0x1_0000_0000_0000_0000 * d);
    assert(-1 <= d <= 1);
}

/// The sum of key and value over the entries of `m` whose key is in `keys`.
pub open spec fn part_total(m: Map<i64, i64>, keys: Set<i64>) -> int {
    keys.fold(0int, |acc: int, k: i64| acc + k + m[k])
}

/// The sum of the members of `keys`.
pub open spec fn members_total(keys: Set<i64>) -> int {
    keys.fold(0int, |acc: int, k: i64| acc + k)
}

/// The sum of key and value over all entries of `m`.
pub open spec fn entries_total(m: Map<i64, i64>) -> int {
    part_total(m, m.dom())
}

/// One more entry adds its key and its value to the sum.
pub proof fn lemma_part_total_insert(m: Map<i64, i64>, keys: Set<i64>, k: i64)
    requires
        keys.finite(),
        !keys.contains(k),
    ensures
        part_total(m, keys.insert(k)) == part_total(m, keys) + k + m[k],
{
    let f = |acc: int, k: i64| acc + k + m[k];
    assert(vstd::set::fold::is_fun_commutative(f));
    vstd::set::fold::lemma_fold_insert(keys, 0int, f, k);
}

/// One more member adds itself to the sum.
pub proof fn lemma_members_total_insert(keys: Set<i64>, k: i64)
    requires
        keys.finite(),
        !keys.contains(k),
    ensures
        members_total(keys.insert(k)) == members_total(keys) + k,
{
    let f = |acc: int, k: i64| acc + k;
    assert(vstd::set::fold::is_fun_commutative(f));
    vstd::set::fold::lemma_fold_insert(keys, 0int, f, k);
}

/// Nothing adds up to 0.
pub proof fn lemma_totals_of_nothing(m: Map<i64, i64>)
    ensures
        part_total(m, Set::empty()) == 0,
        members_total(Set::empty()) == 0,
{
    vstd::set::fold::lemma_fold_empty(0int, |acc: int, k: i64| acc + k + m[k]);
    vstd::set::fold::lemma_fold_empty(0int, |acc: int, k: i64| acc + k);
}

} // verus!
