//! What the parallel primitives compute, stated over sequences, and the
//! sequential code that the suite compares them with.

use vstd::prelude::*;

verus! {

/// The sum of the elements of `s`.
pub open spec fn total(s: Seq<i64>) -> int
    decreases s.len(),
{
    if s.len() == 0 {
        0
    } else {
        total(s.drop_last()) + s.last()
    }
}

/// No element of `s` is negative.
pub open spec fn all_nonnegative(s: Seq<i64>) -> bool {
    forall|i: int| 0 <= i < s.len() ==> s[i] >= 0
}

/// The largest element of `s`, or `i64::MIN` where `s` is empty.
pub open spec fn highest(s: Seq<i64>) -> i64
    decreases s.len(),
{
    if s.len() == 0 {
        i64::MIN
    } else if highest(s.drop_last()) >= s.last() {
        highest(s.drop_last())
    } else {
        s.last()
    }
}

/// No element of `s` is smaller than one before it.
pub open spec fn ascending(s: Seq<i64>) -> bool {
    forall|i: int, j: int| 0 <= i <= j < s.len() ==> s[i] <= s[j]
}

/// Twice `x` plus one fits in 64 bits.
pub open spec fn can_double_plus_one(x: i64) -> bool {
    i64::MIN <= 2 * x + 1 <= i64::MAX
}

/// The square of `x` fits in 64 bits.
pub open spec fn can_square(x: i64) -> bool {
    x * x <= i64::MAX
}

/// The numbers from 0 up to but not including `n`.
pub open spec fn ramp_seq(n: nat) -> Seq<i64> {
    Seq::new(n, |i: int| i as i64)
}

/// The numbers from 0 up to but not including `n`, each reduced modulo
/// `modulus`.
pub open spec fn ramp_modulo_seq(n: nat, modulus: int) -> Seq<i64> {
    Seq::new(n, |i: int| (i % modulus) as i64)
}

/// Twice each index, for `n` indices.
pub open spec fn doubled_indices(n: nat) -> Seq<u64> {
    Seq::new(n, |i: int| (2 * i) as u64)
}

/// A sum of numbers that are not negative is not negative, and no part of
/// it from the start is larger than the whole.
pub proof fn lemma_total_of_prefix(s: Seq<i64>, upto: int)
    requires
        all_nonnegative(s),
        0 <= upto <= s.len(),
    ensures
        0 <= total(s.take(upto)) <= total(s),
    decreases s.len() - upto,
{
    if upto == s.len() {
        assert(s.take(upto) =~= s);
        lemma_total_nonnegative(s);
    } else {
        lemma_total_of_prefix(s, upto + 1);
        assert(s.take(upto + 1).drop_last() =~= s.take(upto));
        lemma_total_nonnegative(s.take(upto));
    }
}

/// A sum of numbers that are not negative is not negative.
pub proof fn lemma_total_nonnegative(s: Seq<i64>)
    requires
        all_nonnegative(s),
    ensures
        0 <= total(s),
    decreases s.len(),
{
    if s.len() > 0 {
        lemma_total_nonnegative(s.drop_last());
    }
}

/// Twice `x` plus one.
pub fn double_plus_one(x: i64) -> (y: i64)
    requires
        can_double_plus_one(x),
    ensures
        y == 2 * x + 1,
{
    x * 2 + 1
}

/// The square of `x`.
pub fn square(x: i64) -> (y: i64)
    requires
        can_square(x),
    ensures
        y == x * x,
{
    assert(x * x >= 0) by (nonlinear_arith);
    x * x
}

/// Whether `x` is even.
pub fn is_even(x: i64) -> (even: bool)
    ensures
        even == (x % 2 == 0),
{
    x % 2 == 0
}

/// The value that no 64-bit number is below.
pub fn lowest() -> (x: i64)
    ensures
        x == i64::MIN,
{
    i64::MIN
}

/// The larger of two numbers.
pub fn larger_of(a: i64, b: i64) -> (m: i64)
    ensures
        m == if a >= b { a } else { b },
{
    if a >= b {
        a
    } else {
        b
    }
}

/// Stores twice the index `i` in `slot`.
pub fn store_doubled(i: usize, slot: &mut u64)
    requires
        2 * i <= usize::MAX,
    ensures
        *final(slot) == 2 * i,
{
    *slot = (i * 2) as u64;
}

/// The numbers from 0 up to but not including `n`.
pub fn ramp(n: usize) -> (data: Vec<i64>)
    requires
        n <= i64::MAX,
    ensures
        data@ == ramp_seq(n as nat),
{
    let mut data: Vec<i64> = Vec::new();
    let mut i: usize = 0;
    while i < n
        invariant
            i <= n <= i64::MAX,
            data@ == ramp_seq(i as nat),
        decreases n - i,
    {
        data.push(i as i64);
        i = i + 1;
        assert(data@ =~= ramp_seq(i as nat));
    }
    data
}

/// The numbers from 0 up to but not including `n`, each reduced modulo
/// `modulus`.
pub fn ramp_modulo(n: usize, modulus: usize) -> (data: Vec<i64>)
    requires
        0 < modulus <= i64::MAX,
    ensures
        data@ == ramp_modulo_seq(n as nat, modulus as int),
{
    let mut data: Vec<i64> = Vec::new();
    let mut i: usize = 0;
    while i < n
        invariant
            i <= n,
            0 < modulus <= i64::MAX,
            data@ == ramp_modulo_seq(i as nat, modulus as int),
        decreases n - i,
    {
        data.push((i % modulus) as i64);
        i = i + 1;
        assert(data@ =~= ramp_modulo_seq(i as nat, modulus as int));
    }
    data
}

/// `n` zeros.
pub fn zeros(n: usize) -> (data: Vec<u64>)
    ensures
        data@ == Seq::new(n as nat, |i: int| 0u64),
{
    let mut data: Vec<u64> = Vec::new();
    let mut i: usize = 0;
    while i < n
        invariant
            i <= n,
            data@ == Seq::new(i as nat, |j: int| 0u64),
        decreases n - i,
    {
        data.push(0);
        i = i + 1;
        assert(data@ =~= Seq::new(i as nat, |j: int| 0u64));
    }
    data
}

/// The sum of `data`, one element after the other.
pub fn seq_sum(data: &Vec<i64>) -> (sum: i64)
    requires
        all_nonnegative(data@),
        total(data@) <= i64::MAX,
    ensures
        sum == total(data@),
{
    let mut sum: i64 = 0;
    let mut i: usize = 0;
    while i < data.len()
        invariant
            i <= data.len(),
            all_nonnegative(data@),
            total(data@) <= i64::MAX,
            sum == total(data@.take(i as int)),
        decreases data.len() - i,
    {
        proof {
            lemma_total_of_prefix(data@, i + 1);
            assert(data@.take(i + 1).drop_last() =~= data@.take(i as int));
        }
        sum = sum + data[i];
        i = i + 1;
    }
    assert(data@.take(data.len() as int) =~= data@);
    sum
}

/// Twice each element of `input` plus one, in the same order.
pub fn seq_double_plus_one(input: &Vec<i64>) -> (out: Vec<i64>)
    requires
        forall|i: int| 0 <= i < input.len() ==> can_double_plus_one(#[trigger] input[i]),
    ensures
        out@ == input@.map_values(|x: i64| (2 * x + 1) as i64),
{
    let mut out: Vec<i64> = Vec::new();
    let mut i: usize = 0;
    while i < input.len()
        invariant
            i <= input.len(),
            forall|i: int| 0 <= i < input.len() ==> can_double_plus_one(#[trigger] input[i]),
            out@ == input@.take(i as int).map_values(|x: i64| (2 * x + 1) as i64),
        decreases input.len() - i,
    {
        out.push(double_plus_one(input[i]));
        i = i + 1;
        assert(out@ =~= input@.take(i as int).map_values(|x: i64| (2 * x + 1) as i64));
    }
    assert(input@.take(input.len() as int) =~= input@);
    out
}

/// The square of each element of `input`, in the same order.
pub fn seq_square(input: &Vec<i64>) -> (out: Vec<i64>)
    requires
        forall|i: int| 0 <= i < input.len() ==> can_square(#[trigger] input[i]),
    ensures
        out@ == input@.map_values(|x: i64| (x * x) as i64),
{
    let mut out: Vec<i64> = Vec::new();
    let mut i: usize = 0;
    while i < input.len()
        invariant
            i <= input.len(),
            forall|i: int| 0 <= i < input.len() ==> can_square(#[trigger] input[i]),
            out@ == input@.take(i as int).map_values(|x: i64| (x * x) as i64),
        decreases input.len() - i,
    {
        out.push(square(input[i]));
        i = i + 1;
        assert(out@ =~= input@.take(i as int).map_values(|x: i64| (x * x) as i64));
    }
    assert(input@.take(input.len() as int) =~= input@);
    out
}

/// The largest element of `data`, which is not empty.
pub fn seq_max(data: &Vec<i64>) -> (max: i64)
    requires
        data.len() > 0,
    ensures
        max == highest(data@),
{
    let mut max: i64 = data[0];
    let mut i: usize = 1;
    assert(data@.take(1).drop_last() =~= Seq::<i64>::empty());
    assert(highest(data@.take(1).drop_last()) == i64::MIN);
    assert(data@.take(1).last() == data[0]);
    while i < data.len()
        invariant
            1 <= i <= data.len(),
            max == highest(data@.take(i as int)),
        decreases data.len() - i,
    {
        proof {
            assert(data@.take(i + 1).drop_last() =~= data@.take(i as int));
        }
        max = larger_of(max, data[i]);
        i = i + 1;
    }
    assert(data@.take(data.len() as int) =~= data@);
    max
}

/// Stores twice its index in each element of `data`.
pub fn seq_fill_doubled(data: &mut Vec<u64>)
    requires
        2 * old(data).len() <= usize::MAX,
    ensures
        final(data)@ == doubled_indices(old(data).len() as nat),
{
    let n: usize = data.len();
    let mut i: usize = 0;
    while i < n
        invariant
            i <= n,
            2 * n <= usize::MAX,
            data.len() == n,
            forall|j: int| 0 <= j < i ==> data[j] == 2 * j,
        decreases n - i,
    {
        data[i] = (i * 2) as u64;
        i = i + 1;
    }
    assert(data@ =~= doubled_indices(n as nat));
}

/// The even elements of `data`, in the same order.
pub fn seq_filter_even(data: &Vec<i64>) -> (out: Vec<i64>)
    ensures
        out@ == data@.filter(|x: i64| x % 2 == 0),
{
    let mut out: Vec<i64> = Vec::new();
    let mut i: usize = 0;
    assert(data@.take(0).filter(|x: i64| x % 2 == 0) =~= Seq::<i64>::empty());
    while i < data.len()
        invariant
            i <= data.len(),
            out@ == data@.take(i as int).filter(|x: i64| x % 2 == 0),
        decreases data.len() - i,
    {
        proof {
            assert(data@.take(i + 1).drop_last() =~= data@.take(i as int));
            reveal(Seq::filter);
        }
        if is_even(data[i]) {
            out.push(data[i]);
        }
        i = i + 1;
    }
    assert(data@.take(data.len() as int) =~= data@);
    out
}

/// Whether no element of `data` is smaller than the one before it.
pub fn is_ascending(data: &Vec<i64>) -> (sorted: bool)
    ensures
        sorted == ascending(data@),
{
    if data.len() < 2 {
        return true;
    }
    let mut i: usize = 1;
    while i < data.len()
        invariant
            1 <= i <= data.len(),
            ascending(data@.take(i as int)),
        decreases data.len() - i,
    {
        if data[i - 1] > data[i] {
            return false;
        }
        proof {
            let longer = data@.take(i + 1);
            assert forall|a: int, b: int| 0 <= a <= b < longer.len() implies longer[a]
                <= longer[b] by {
                if b < i {
                    assert(data@.take(i as int)[a] <= data@.take(i as int)[b]);
                } else if a < i {
                    assert(data@.take(i as int)[a] <= data@.take(i as int)[i - 1]);
                }
            }
        }
        i = i + 1;
    }
    assert(data@.take(data.len() as int) =~= data@);
    true
}

} // verus!
