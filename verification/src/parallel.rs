//! The parallel primitives that the suite measures.
//!
//! Nothing in this file is proved. Each function below hands one call to the
//! `rayon` crate, or to the standard library's sort, and states what the
//! call computes. The closures that a call takes do nothing but call a
//! verified function of `sequence`.

use vstd::prelude::*;
use rayon::iter::{
    IndexedParallelIterator, IntoParallelRefIterator, IntoParallelRefMutIterator,
    ParallelIterator,
};
use rayon::slice::ParallelSliceMut;
use crate::sequence::{
    all_nonnegative, ascending, can_double_plus_one, can_square, double_plus_one, doubled_indices,
    highest, is_even, larger_of, lowest, square, store_doubled, total,
};

verus! {

/// `rayon::join` on two closures that give `a` and `b`: the pair of both
/// results.
#[verifier::external_body]
pub(crate) fn par_join(a: i64, b: i64) -> (r: (i64, i64))
    ensures
        r.0 == a,
        r.1 == b,
{
    rayon::join(move || a, move || b)
}

/// `ParallelIterator::sum` over `par_iter`: the sum of the elements. The
/// parts are added in an order that is not fixed, so no part may overflow:
/// no element is negative and the whole fits.
#[verifier::external_body]
pub(crate) fn par_sum(data: &Vec<i64>) -> (sum: i64)
    requires
        all_nonnegative(data@),
        total(data@) <= i64::MAX,
    ensures
        sum == total(data@),
{
    data.par_iter().sum()
}

/// `ParallelIterator::map` with `double_plus_one`, collected into a vector:
/// the results in the order of the elements.
#[verifier::external_body]
pub(crate) fn par_double_plus_one(input: &Vec<i64>) -> (out: Vec<i64>)
    requires
        forall|i: int| 0 <= i < input.len() ==> can_double_plus_one(#[trigger] input[i]),
    ensures
        out@ == input@.map_values(|x: i64| (2 * x + 1) as i64),
{
    input.par_iter().map(|x| double_plus_one(*x)).collect()
}

/// `ParallelIterator::map` with `square`, collected into a vector: the
/// results in the order of the elements.
#[verifier::external_body]
pub(crate) fn par_square(input: &Vec<i64>) -> (out: Vec<i64>)
    requires
        forall|i: int| 0 <= i < input.len() ==> can_square(#[trigger] input[i]),
    ensures
        out@ == input@.map_values(|x: i64| (x * x) as i64),
{
    input.par_iter().map(|x| square(*x)).collect()
}

/// `ParallelIterator::reduce` with `lowest` as the identity and `larger_of`
/// as the operation: the largest element, or `i64::MIN` without elements.
#[verifier::external_body]
pub(crate) fn par_max(data: &Vec<i64>) -> (max: i64)
    ensures
        max == highest(data@),
{
    data.par_iter().cloned().reduce(lowest, larger_of)
}

/// `par_iter_mut`, `enumerate` and `for_each` with `store_doubled`: each
/// element becomes twice its index.
#[verifier::external_body]
pub(crate) fn par_fill_doubled(data: &mut Vec<u64>)
    requires
        2 * old(data).len() <= usize::MAX,
    ensures
        final(data)@ == doubled_indices(old(data).len() as nat),
{
    data.par_iter_mut().enumerate().for_each(|(i, v)| store_doubled(i, v))
}

/// `ParallelSliceMut::par_sort`: the same elements in ascending order.
#[verifier::external_body]
pub(crate) fn par_sort(data: &mut Vec<i64>)
    ensures
        ascending(final(data)@),
        final(data)@.to_multiset() == old(data)@.to_multiset(),
{
    data.par_sort()
}

/// `ParallelIterator::filter` with `is_even`, collected into a vector: the
/// even elements in their order.
#[verifier::external_body]
pub(crate) fn par_filter_even(data: &Vec<i64>) -> (out: Vec<i64>)
    ensures
        out@ == data@.filter(|x: i64| x % 2 == 0),
{
    data.par_iter().filter(|x| is_even(**x)).cloned().collect()
}

/// The standard library's `sort` of a slice: the same elements in ascending
/// order.
#[verifier::external_body]
pub(crate) fn seq_sort(data: &mut Vec<i64>)
    ensures
        ascending(final(data)@),
        final(data)@.to_multiset() == old(data)@.to_multiset(),
{
    data.sort()
}

} // verus!
