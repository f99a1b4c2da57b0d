//! The set cases of the hash-table suite: the Swiss table's set as the
//! candidate, the standard library's set as the baseline.

use vstd::prelude::*;
use crate::clock::{elapsed_ns, MAX_SAMPLE_NS};
use crate::map_cases::{ITERATIONS, MAX_CASE_SIZE, WARMUP_ITERATIONS};
use crate::members::{Members, StdSet};
use crate::report::CaseRun;
use crate::swiss::{SwissSet, SWISS_MAX_ENTRIES};
use crate::timing::run_protocol;

verus! {

/// The values from `lo` up to but not including `hi`.
pub open spec fn range_set(lo: int, hi: int) -> Set<i64> {
    Set::new(|k: i64| lo <= k < hi)
}

/// The number of values from `lo` up to but not including `hi` that are in
/// `members`.
pub open spec fn range_held(members: Set<i64>, lo: int, hi: int) -> nat
    decreases hi - lo,
{
    if hi <= lo {
        0
    } else if members.contains((hi - 1) as i64) {
        range_held(members, lo, hi - 1) + 1
    } else {
        range_held(members, lo, hi - 1)
    }
}

/// The union that the union case builds: the values below `n` together with
/// the `n` values from half of `n` on.
pub open spec fn union_of_halves(n: int) -> Set<i64> {
    range_set(0, n).union(range_set(n / 2, n / 2 + n))
}

/// The intersection that the intersection case builds: the values below `n`
/// that are also among the `n` values from half of `n` on.
pub open spec fn intersection_of_halves(n: int) -> Set<i64> {
    range_set(0, n).intersect(range_set(n / 2, n / 2 + n))
}

/// Inserts each value from `lo` up to but not including `hi`.
pub fn fill_members_range<S: Members>(s: &mut S, lo: usize, hi: usize)
    requires
        lo <= hi <= i64::MAX,
        old(s).members().finite(),
        old(s).members().len() + (hi - lo) <= SWISS_MAX_ENTRIES,
    ensures
        final(s).members() == old(s).members().union(range_set(lo as int, hi as int)),
        final(s).members().finite(),
        final(s).members().len() <= old(s).members().len() + (hi - lo),
{
    let ghost start = s.members();
    let mut i: usize = lo;
    assert(s.members() =~= start.union(range_set(lo as int, lo as int)));
    while i < hi
        invariant
            lo <= i <= hi <= i64::MAX,
            start.finite(),
            start.len() + (hi - lo) <= SWISS_MAX_ENTRIES,
            s.members() == start.union(range_set(lo as int, i as int)),
            s.members().finite(),
            s.members().len() <= start.len() + (i - lo),
        decreases hi - i,
    {
        s.put(i as i64);
        assert(s.members() =~= start.union(range_set(lo as int, (i + 1) as int)));
        i = i + 1;
    }
}

/// Asks of each value from `lo` up to but not including `hi` whether it is
/// a member, and counts those that are.
pub fn count_members_range<S: Members>(s: &S, lo: usize, hi: usize) -> (count: usize)
    requires
        lo <= hi <= i64::MAX,
    ensures
        count == range_held(s.members(), lo as int, hi as int),
{
    let mut count: usize = 0;
    let mut i: usize = lo;
    while i < hi
        invariant
            lo <= i <= hi <= i64::MAX,
            count == range_held(s.members(), lo as int, i as int),
            count <= i - lo,
        decreases hi - i,
    {
        if s.has(i as i64) {
            count = count + 1;
        }
        i = i + 1;
    }
    count
}

/// A set with room for `n` members that holds the values from `lo` up to
/// but not including `lo + n`.
pub fn filled_set<S: Members>(lo: usize, n: usize) -> (set: S)
    requires
        n <= MAX_CASE_SIZE,
        lo <= MAX_CASE_SIZE,
    ensures
        set.members() == range_set(lo as int, lo + n),
        set.members().finite(),
        set.members().len() <= n,
{
    let mut set = S::with_room(n);
    fill_members_range(&mut set, lo, lo + n);
    assert(set.members() =~= range_set(lo as int, lo + n));
    set
}

/// Times the insertion of the values below `n` into a new set.
pub fn timed_fill_new_set<S: Members>(n: usize) -> (r: (u128, S))
    requires
        n <= MAX_CASE_SIZE,
    ensures
        r.0 <= MAX_SAMPLE_NS,
        r.1.members() == range_set(0, n as int),
{
    let mut set = S::empty();
    let start = std::time::Instant::now();
    fill_members_range(&mut set, 0, n);
    let elapsed = elapsed_ns(&start);
    std::hint::black_box(&set);
    assert(set.members() =~= range_set(0, n as int));
    (elapsed, set)
}

/// Times the membership tests of the values from `lo` up to but not
/// including `hi`; also returns the number of members among them.
pub fn timed_count_members<S: Members>(set: &S, lo: usize, hi: usize) -> (r: (u128, usize))
    requires
        lo <= hi <= i64::MAX,
    ensures
        r.0 <= MAX_SAMPLE_NS,
        r.1 == range_held(set.members(), lo as int, hi as int),
{
    let start = std::time::Instant::now();
    let count = count_members_range(set, lo, hi);
    let elapsed = elapsed_ns(&start);
    std::hint::black_box(count);
    (elapsed, count)
}

/// Times the union of two sets; also returns it.
pub fn timed_union<S: Members>(a: &S, b: &S) -> (r: (u128, S))
    requires
        a.members().finite(),
        b.members().finite(),
        a.members().len() + b.members().len() <= SWISS_MAX_ENTRIES,
    ensures
        r.0 <= MAX_SAMPLE_NS,
        r.1.members() == a.members().union(b.members()),
{
    let start = std::time::Instant::now();
    let result = a.union_with(b);
    let elapsed = elapsed_ns(&start);
    std::hint::black_box(&result);
    (elapsed, result)
}

/// Times the intersection of two sets; also returns it.
pub fn timed_intersection<S: Members>(a: &S, b: &S) -> (r: (u128, S))
    requires
        a.members().finite(),
        b.members().finite(),
        a.members().len() <= SWISS_MAX_ENTRIES,
        b.members().len() <= SWISS_MAX_ENTRIES,
    ensures
        r.0 <= MAX_SAMPLE_NS,
        r.1.members() == a.members().intersect(b.members()),
{
    let start = std::time::Instant::now();
    let result = a.intersection_with(b);
    let elapsed = elapsed_ns(&start);
    std::hint::black_box(&result);
    (elapsed, result)
}

/// Insertion of the values below `n`, in order, into a new set. Each
/// backend ends with the set of these values.
pub fn bench_set_insert(n: usize) -> (r: CaseRun<StdSet, SwissSet>)
    requires
        n <= MAX_CASE_SIZE,
    ensures
        r.result.name@ == "Set insert"@,
        r.result.size == n,
        r.result.ops == n,
        r.follows_protocol(WARMUP_ITERATIONS as nat, ITERATIONS as nat),
        r.baseline_output.members() == range_set(0, n as int),
        r.candidate_output.members() == range_set(0, n as int),
{
    let candidate = || -> (t: (u128, SwissSet))
        ensures
            t.0 <= MAX_SAMPLE_NS,
            t.1.members() == range_set(0, n as int),
        { timed_fill_new_set::<SwissSet>(n) };
    let baseline = || -> (t: (u128, StdSet))
        ensures
            t.0 <= MAX_SAMPLE_NS,
            t.1.members() == range_set(0, n as int),
        { timed_fill_new_set::<StdSet>(n) };
    let (std_trace, hb_trace) = run_protocol(WARMUP_ITERATIONS, ITERATIONS, &baseline, &candidate);
    CaseRun::new("Set insert", n, n, std_trace, hb_trace)
}

/// Membership tests of the values below `2 * n` in a set that holds the
/// values below `n`: `2 * n` operations in a run. Each backend ends with the
/// number of members found.
pub fn bench_set_contains(n: usize) -> (r: CaseRun<usize, usize>)
    requires
        n <= MAX_CASE_SIZE,
    ensures
        r.result.name@ == "Set contains"@,
        r.result.size == n,
        r.result.ops == 2 * n,
        r.follows_protocol(WARMUP_ITERATIONS as nat, ITERATIONS as nat),
        r.baseline_output == range_held(range_set(0, n as int), 0, 2 * n),
        r.candidate_output == range_held(range_set(0, n as int), 0, 2 * n),
{
    let hb_set = filled_set::<SwissSet>(0, n);
    let std_set = filled_set::<StdSet>(0, n);
    let candidate = || -> (t: (u128, usize))
        ensures
            t.0 <= MAX_SAMPLE_NS,
            t.1 == range_held(range_set(0, n as int), 0, 2 * n),
        { timed_count_members(&hb_set, 0, n * 2) };
    let baseline = || -> (t: (u128, usize))
        ensures
            t.0 <= MAX_SAMPLE_NS,
            t.1 == range_held(range_set(0, n as int), 0, 2 * n),
        { timed_count_members(&std_set, 0, n * 2) };
    let (std_trace, hb_trace) = run_protocol(WARMUP_ITERATIONS, ITERATIONS, &baseline, &candidate);
    CaseRun::new("Set contains", n, n * 2, std_trace, hb_trace)
}

/// The union of the set of the values below `n` with the set of the `n`
/// values from half of `n` on, which share half of their members. Each
/// backend ends with the union.
pub fn bench_set_union(n: usize) -> (r: CaseRun<StdSet, SwissSet>)
    requires
        n <= MAX_CASE_SIZE,
    ensures
        r.result.name@ == "Set union"@,
        r.result.size == n,
        r.result.ops == n,
        r.follows_protocol(WARMUP_ITERATIONS as nat, ITERATIONS as nat),
        r.baseline_output.members() == union_of_halves(n as int),
        r.candidate_output.members() == union_of_halves(n as int),
{
    let hb_set_a = filled_set::<SwissSet>(0, n);
    let hb_set_b = filled_set::<SwissSet>(n / 2, n);
    let std_set_a = filled_set::<StdSet>(0, n);
    let std_set_b = filled_set::<StdSet>(n / 2, n);
    let candidate = || -> (t: (u128, SwissSet))
        ensures
            t.0 <= MAX_SAMPLE_NS,
            t.1.members() == union_of_halves(n as int),
        { timed_union(&hb_set_a, &hb_set_b) };
    let baseline = || -> (t: (u128, StdSet))
        ensures
            t.0 <= MAX_SAMPLE_NS,
            t.1.members() == union_of_halves(n as int),
        { timed_union(&std_set_a, &std_set_b) };
    let (std_trace, hb_trace) = run_protocol(WARMUP_ITERATIONS, ITERATIONS, &baseline, &candidate);
    CaseRun::new("Set union", n, n, std_trace, hb_trace)
}

/// The intersection of the set of the values below `n` with the set of the
/// `n` values from half of `n` on, which share half of their members. Each
/// backend ends with the intersection.
pub fn bench_set_intersection(n: usize) -> (r: CaseRun<StdSet, SwissSet>)
    requires
        n <= MAX_CASE_SIZE,
    ensures
        r.result.name@ == "Set intersect"@,
        r.result.size == n,
        r.result.ops == n,
        r.follows_protocol(WARMUP_ITERATIONS as nat, ITERATIONS as nat),
        r.baseline_output.members() == intersection_of_halves(n as int),
        r.candidate_output.members() == intersection_of_halves(n as int),
{
    let hb_set_a = filled_set::<SwissSet>(0, n);
    let hb_set_b = filled_set::<SwissSet>(n / 2, n);
    let std_set_a = filled_set::<StdSet>(0, n);
    let std_set_b = filled_set::<StdSet>(n / 2, n);
    let candidate = || -> (t: (u128, SwissSet))
        ensures
            t.0 <= MAX_SAMPLE_NS,
            t.1.members() == intersection_of_halves(n as int),
        { timed_intersection(&hb_set_a, &hb_set_b) };
    let baseline = || -> (t: (u128, StdSet))
        ensures
            t.0 <= MAX_SAMPLE_NS,
            t.1.members() == intersection_of_halves(n as int),
        { timed_intersection(&std_set_a, &std_set_b) };
    let (std_trace, hb_trace) = run_protocol(WARMUP_ITERATIONS, ITERATIONS, &baseline, &candidate);
    CaseRun::new("Set intersect", n, n, std_trace, hb_trace)
}

} // verus!
