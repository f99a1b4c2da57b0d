//! What the drivers of the two suites run: the input sizes, and the cases
//! that are left out above a size.

use vstd::prelude::*;

verus! {

/// The largest input size at which the set cases of the hash-table suite
/// run.
pub const SET_CASES_LIMIT: usize = 100_000;

/// The largest input size at which the sort case of the parallel suite
/// runs.
pub const SORT_CASE_LIMIT: usize = 1_000_000;

/// The input sizes of the hash-table suite, in the order of the report.
pub fn table_sizes() -> (sizes: Vec<usize>)
    ensures
        sizes@ == seq![1_000usize, 10_000, 100_000, 1_000_000],
{
    let mut sizes: Vec<usize> = Vec::new();
    sizes.push(1_000);
    sizes.push(10_000);
    sizes.push(100_000);
    sizes.push(1_000_000);
    assert(sizes@ =~= seq![1_000usize, 10_000, 100_000, 1_000_000]);
    sizes
}

/// The input sizes of the parallel suite, in the order of the report.
pub fn parallel_sizes() -> (sizes: Vec<usize>)
    ensures
        sizes@ == seq![1_000usize, 10_000, 100_000, 1_000_000, 10_000_000],
{
    let mut sizes: Vec<usize> = Vec::new();
    sizes.push(1_000);
    sizes.push(10_000);
    sizes.push(100_000);
    sizes.push(1_000_000);
    sizes.push(10_000_000);
    assert(sizes@ =~= seq![1_000usize, 10_000, 100_000, 1_000_000, 10_000_000]);
    sizes
}

/// Whether the set cases run at the input size `n`.
pub fn runs_set_cases(n: usize) -> (runs: bool)
    ensures
        runs == (n <= SET_CASES_LIMIT),
{
    n <= SET_CASES_LIMIT
}

/// Whether the sort case runs at the input size `n`.
pub fn runs_sort_case(n: usize) -> (runs: bool)
    ensures
        runs == (n <= SORT_CASE_LIMIT),
{
    n <= SORT_CASE_LIMIT
}

} // verus!
