//! The cases of the parallel-primitive suite: the parallel primitive as the
//! candidate, the sequential code as the baseline.

use vstd::prelude::*;
use crate::clock::{elapsed_ns, MAX_SAMPLE_NS};
use crate::parallel::{
    par_double_plus_one, par_fill_doubled, par_filter_even, par_join, par_max, par_sort,
    par_square, par_sum, seq_sort,
};
use crate::report::{BenchmarkResult, CaseRun, JoinOverhead};
use crate::rng::{keys_below_seq, keys_seq, random_keys, random_keys_below, Rng};
use crate::sequence::{
    all_nonnegative, ascending, can_double_plus_one, can_square, doubled_indices, highest,
    is_ascending, ramp, ramp_modulo, ramp_modulo_seq, ramp_seq, seq_double_plus_one,
    seq_fill_doubled, seq_filter_even, seq_max, seq_square, seq_sum, total, zeros,
};
use crate::timing::{clock_samples, log_sample, summarize_measured, timing_loop};

verus! {

/// The measured runs of each case of this suite.
pub const ITERATIONS: usize = 10;

/// The warmup runs of each case of this suite.
pub const WARMUP_ITERATIONS: usize = 3;

/// The largest input size at which a case that builds a new vector in each
/// run still runs.
pub const COLLECT_LIMIT: usize = 1_000_000;

/// The joins that are timed together.
pub const JOIN_ITERATIONS: usize = 100_000;

/// The joins that are run before the timing starts.
pub const JOIN_WARMUP: usize = 1000;

/// `sorted` holds, in ascending order, the `n` numbers drawn from the
/// generator seeded with 54321, each as often as it was drawn.
pub open spec fn sorted_keys(sorted: Seq<i64>, n: nat) -> bool {
    ascending(sorted) && sorted.to_multiset() == keys_seq(54321, n).to_multiset()
}

/// A sum of at most `len` numbers between 0 and `bound` is at most `len`
/// times `bound`.
proof fn lemma_total_bounded(s: Seq<i64>, bound: int)
    requires
        forall|i: int| 0 <= i < s.len() ==> 0 <= #[trigger] s[i] <= bound,
    ensures
        total(s) <= s.len() * bound,
    decreases s.len(),
{
    if s.len() > 0 {
        lemma_total_bounded(s.drop_last(), bound);
        assert(s.len() * bound == (s.len() - 1) * bound + bound) by (nonlinear_arith);
    }
}

/// What the sum cases need of their input: the numbers below `n`, reduced
/// modulo 1000, are not negative and add up to a number that fits.
proof fn lemma_ramp_modulo_sums(n: nat)
    requires
        999 * n <= i64::MAX,
    ensures
        all_nonnegative(ramp_modulo_seq(n, 1000)),
        total(ramp_modulo_seq(n, 1000)) <= i64::MAX,
{
    let s = ramp_modulo_seq(n, 1000);
    assert forall|i: int| 0 <= i < s.len() implies 0 <= #[trigger] s[i] <= 999 by {}
    lemma_total_bounded(s, 999);
}

/// One run of the sequential sum: computes it and hands it to the
/// optimisation barrier.
pub fn sequential_sum_unit(data: &Vec<i64>) -> (sum: i64)
    requires
        all_nonnegative(data@),
        total(data@) <= i64::MAX,
    ensures
        sum == total(data@),
{
    let sum = seq_sum(data);
    std::hint::black_box(sum)
}

/// One run of the parallel sum.
pub fn parallel_sum_unit(data: &Vec<i64>) -> (sum: i64)
    requires
        all_nonnegative(data@),
        total(data@) <= i64::MAX,
    ensures
        sum == total(data@),
{
    let sum = par_sum(data);
    std::hint::black_box(sum)
}

/// One run of the sequential map of `double_plus_one`.
pub fn sequential_map_unit(input: &Vec<i64>) -> (out: Vec<i64>)
    requires
        forall|i: int| 0 <= i < input.len() ==> can_double_plus_one(#[trigger] input[i]),
    ensures
        out@ == input@.map_values(|x: i64| (2 * x + 1) as i64),
{
    let result = seq_double_plus_one(input);
    std::hint::black_box(result)
}

/// One run of the parallel map of `double_plus_one`.
pub fn parallel_map_unit(input: &Vec<i64>) -> (out: Vec<i64>)
    requires
        forall|i: int| 0 <= i < input.len() ==> can_double_plus_one(#[trigger] input[i]),
    ensures
        out@ == input@.map_values(|x: i64| (2 * x + 1) as i64),
{
    let result = par_double_plus_one(input);
    std::hint::black_box(result)
}

/// One run of the sequential search for the maximum.
pub fn sequential_max_unit(data: &Vec<i64>) -> (max: i64)
    requires
        data.len() > 0,
    ensures
        max == highest(data@),
{
    let max = seq_max(data);
    std::hint::black_box(max)
}

/// One run of the parallel reduction to the maximum.
pub fn parallel_max_unit(data: &Vec<i64>) -> (max: i64)
    ensures
        max == highest(data@),
{
    let max = par_max(data);
    std::hint::black_box(max)
}

/// One run of the sequential writing of twice each index.
pub fn sequential_fill_unit(data: &mut Vec<u64>)
    requires
        2 * old(data).len() <= usize::MAX,
    ensures
        final(data)@ == doubled_indices(old(data).len() as nat),
{
    seq_fill_doubled(data);
    std::hint::black_box(&*data);
}

/// One run of the parallel writing of twice each index.
pub fn parallel_fill_unit(data: &mut Vec<u64>)
    requires
        2 * old(data).len() <= usize::MAX,
    ensures
        final(data)@ == doubled_indices(old(data).len() as nat),
{
    par_fill_doubled(data);
    std::hint::black_box(&*data);
}

/// One run of the sequential sort: sorts a copy of `unsorted`.
pub fn sequential_sort_unit(unsorted: &Vec<i64>) -> (data: Vec<i64>)
    ensures
        ascending(data@),
        data@.to_multiset() == unsorted@.to_multiset(),
{
    let mut data = unsorted.clone();
    assert(data@ =~= unsorted@);
    seq_sort(&mut data);
    std::hint::black_box(&data);
    data
}

/// One run of the parallel sort: sorts a copy of `unsorted`.
pub fn parallel_sort_unit(unsorted: &Vec<i64>) -> (data: Vec<i64>)
    ensures
        ascending(data@),
        data@.to_multiset() == unsorted@.to_multiset(),
{
    let mut data = unsorted.clone();
    assert(data@ =~= unsorted@);
    par_sort(&mut data);
    std::hint::black_box(&data);
    data
}

/// One run of the sequential map of `square`.
pub fn sequential_square_unit(input: &Vec<i64>) -> (out: Vec<i64>)
    requires
        forall|i: int| 0 <= i < input.len() ==> can_square(#[trigger] input[i]),
    ensures
        out@ == input@.map_values(|x: i64| (x * x) as i64),
{
    let result = seq_square(input);
    std::hint::black_box(result)
}

/// One run of the parallel map of `square`.
pub fn parallel_square_unit(input: &Vec<i64>) -> (out: Vec<i64>)
    requires
        forall|i: int| 0 <= i < input.len() ==> can_square(#[trigger] input[i]),
    ensures
        out@ == input@.map_values(|x: i64| (x * x) as i64),
{
    let result = par_square(input);
    std::hint::black_box(result)
}

/// One run of the sequential choice of the even numbers.
pub fn sequential_filter_unit(data: &Vec<i64>) -> (out: Vec<i64>)
    ensures
        out@ == data@.filter(|x: i64| x % 2 == 0),
{
    let result = seq_filter_even(data);
    std::hint::black_box(result)
}

/// One run of the parallel choice of the even numbers.
pub fn parallel_filter_unit(data: &Vec<i64>) -> (out: Vec<i64>)
    ensures
        out@ == data@.filter(|x: i64| x % 2 == 0),
{
    let result = par_filter_even(data);
    std::hint::black_box(result)
}

/// Times one run of the sequential writing of twice each index.
pub fn timed_sequential_fill(data: &mut Vec<u64>) -> (ns: u128)
    requires
        2 * old(data).len() <= usize::MAX,
    ensures
        ns <= MAX_SAMPLE_NS,
        final(data)@ == doubled_indices(old(data).len() as nat),
{
    let start = std::time::Instant::now();
    sequential_fill_unit(data);
    elapsed_ns(&start)
}

/// Times one run of the parallel writing of twice each index.
pub fn timed_parallel_fill(data: &mut Vec<u64>) -> (ns: u128)
    requires
        2 * old(data).len() <= usize::MAX,
    ensures
        ns <= MAX_SAMPLE_NS,
        final(data)@ == doubled_indices(old(data).len() as nat),
{
    let start = std::time::Instant::now();
    parallel_fill_unit(data);
    elapsed_ns(&start)
}

/// One fork-join of two closures that give 1 and 2: the sum of both.
pub fn join_unit() -> (sum: i64)
    ensures
        sum == 3,
{
    let (a, b) = par_join(1, 2);
    a + b
}

/// The fork-join of two closures that do no work: 1000 joins unmeasured,
/// then 100,000 joins timed together. A join gives 1 and 2, and `count` adds
/// up what the timed joins give.
pub fn bench_join_overhead() -> (r: JoinOverhead)
    ensures
        r.iterations == JOIN_ITERATIONS,
        r.count == 3 * JOIN_ITERATIONS,
        r.total_ns <= MAX_SAMPLE_NS,
{
    let mut w: usize = 0;
    while w < JOIN_WARMUP
        invariant
            w <= JOIN_WARMUP,
        decreases JOIN_WARMUP - w,
    {
        std::hint::black_box(join_unit());
        w = w + 1;
    }
    let start = std::time::Instant::now();
    let mut count: i64 = 0;
    let mut i: usize = 0;
    while i < JOIN_ITERATIONS
        invariant
            i <= JOIN_ITERATIONS,
            count == 3 * i,
        decreases JOIN_ITERATIONS - i,
    {
        count = count + join_unit();
        i = i + 1;
    }
    let total_ns = elapsed_ns(&start);
    JoinOverhead { iterations: JOIN_ITERATIONS, total_ns, count }
}

/// The sum of `n` numbers below 1000, which has to fit in 64 bits. Each
/// backend ends with the sum.
pub fn bench_parallel_sum(n: usize) -> (r: CaseRun<i64, i64>)
    requires
        999 * n <= i64::MAX,
    ensures
        r.result.name@ == "Sum"@,
        r.result.size == n,
        r.result.ops == 1,
        r.follows_protocol(WARMUP_ITERATIONS as nat, ITERATIONS as nat),
        r.baseline_output == total(ramp_modulo_seq(n as nat, 1000)),
        r.candidate_output == total(ramp_modulo_seq(n as nat, 1000)),
{
    let data = ramp_modulo(n, 1000);
    proof {
        lemma_ramp_modulo_sums(n as nat);
    }
    let baseline = || -> (out: i64)
        ensures
            out == total(ramp_modulo_seq(n as nat, 1000)),
        { sequential_sum_unit(&data) };
    let candidate = || -> (out: i64)
        ensures
            out == total(ramp_modulo_seq(n as nat, 1000)),
        { parallel_sum_unit(&data) };
    let (seq_trace, par_trace) = timing_loop(WARMUP_ITERATIONS, ITERATIONS, baseline, candidate);
    CaseRun::new("Sum", n, 1, seq_trace, par_trace)
}

/// Twice each of the numbers below `n` plus one, into a new vector. Does not
/// run above `COLLECT_LIMIT`. Each backend ends with that vector.
pub fn bench_parallel_map(n: usize) -> (r: Option<CaseRun<Vec<i64>, Vec<i64>>>)
    ensures
        r is None <==> n > COLLECT_LIMIT,
        r matches Some(c) ==> {
            &&& c.result.name@ == "Map(x*2+1)"@
            &&& c.result.size == n
            &&& c.result.ops == 1
            &&& c.follows_protocol(WARMUP_ITERATIONS as nat, ITERATIONS as nat)
            &&& c.baseline_output@ == ramp_seq(n as nat).map_values(|x: i64| (2 * x + 1) as i64)
            &&& c.candidate_output@ == ramp_seq(n as nat).map_values(|x: i64| (2 * x + 1) as i64)
        },
{
    if n > COLLECT_LIMIT {
        return None;
    }
    let input = ramp(n);
    let baseline = || -> (out: Vec<i64>)
        ensures
            out@ == ramp_seq(n as nat).map_values(|x: i64| (2 * x + 1) as i64),
        { sequential_map_unit(&input) };
    let candidate = || -> (out: Vec<i64>)
        ensures
            out@ == ramp_seq(n as nat).map_values(|x: i64| (2 * x + 1) as i64),
        { parallel_map_unit(&input) };
    let (seq_trace, par_trace) = timing_loop(WARMUP_ITERATIONS, ITERATIONS, baseline, candidate);
    Some(CaseRun::new("Map(x*2+1)", n, 1, seq_trace, par_trace))
}

/// The largest of `n` numbers drawn below one million from the generator
/// seeded with 12345. The sequential code has no answer without numbers.
/// Each backend ends with the largest number.
pub fn bench_parallel_reduce(n: usize) -> (r: CaseRun<i64, i64>)
    requires
        n > 0,
    ensures
        r.result.name@ == "Reduce(max)"@,
        r.result.size == n,
        r.result.ops == 1,
        r.follows_protocol(WARMUP_ITERATIONS as nat, ITERATIONS as nat),
        r.baseline_output == highest(keys_below_seq(12345, n as nat, 1_000_000)),
        r.candidate_output == highest(keys_below_seq(12345, n as nat, 1_000_000)),
{
    let mut rng = Rng::new(12345);
    let data = random_keys_below(&mut rng, n, 1_000_000);
    let baseline = || -> (out: i64)
        ensures
            out == highest(keys_below_seq(12345, n as nat, 1_000_000)),
        { sequential_max_unit(&data) };
    let candidate = || -> (out: i64)
        ensures
            out == highest(keys_below_seq(12345, n as nat, 1_000_000)),
        { parallel_max_unit(&data) };
    let (seq_trace, par_trace) = timing_loop(WARMUP_ITERATIONS, ITERATIONS, baseline, candidate);
    CaseRun::new("Reduce(max)", n, 1, seq_trace, par_trace)
}

/// Writing twice its index to each of `n` elements, in place. Twice the
/// last index has to fit in a `usize`. Both backends write to the same
/// elements, so the protocol stands here in full: the runs are logged one
/// by one, and `summarize_measured` leaves the warmup runs out. Each backend
/// ends with the elements as it left them.
pub fn bench_parallel_for(n: usize) -> (r: CaseRun<Vec<u64>, Vec<u64>>)
    requires
        2 * n <= usize::MAX,
    ensures
        r.result.name@ == "For(indices)"@,
        r.result.size == n,
        r.result.ops == 1,
        r.follows_protocol(WARMUP_ITERATIONS as nat, ITERATIONS as nat),
        r.baseline_output@ == doubled_indices(n as nat),
        r.candidate_output@ == doubled_indices(n as nat),
{
    let mut data = zeros(n);
    let mut seq_samples: Vec<u128> = Vec::new();
    let mut par_samples: Vec<u128> = Vec::new();
    let mut w: usize = 0;
    while w < WARMUP_ITERATIONS
        invariant
            w <= WARMUP_ITERATIONS,
            data.len() == n,
            2 * n <= usize::MAX,
            seq_samples@.len() == w,
            par_samples@.len() == w,
            clock_samples(seq_samples@),
            clock_samples(par_samples@),
        decreases WARMUP_ITERATIONS - w,
    {
        let elapsed = timed_sequential_fill(&mut data);
        log_sample(&mut seq_samples, elapsed);
        let elapsed = timed_parallel_fill(&mut data);
        log_sample(&mut par_samples, elapsed);
        w = w + 1;
    }
    let mut i: usize = 0;
    while i < ITERATIONS
        invariant
            i <= ITERATIONS,
            data.len() == n,
            2 * n <= usize::MAX,
            seq_samples@.len() == WARMUP_ITERATIONS + i,
            clock_samples(seq_samples@),
            i > 0 ==> data@ == doubled_indices(n as nat),
        decreases ITERATIONS - i,
    {
        let elapsed = timed_sequential_fill(&mut data);
        log_sample(&mut seq_samples, elapsed);
        i = i + 1;
    }
    let seq_data = data.clone();
    assert(seq_data@ =~= data@);
    let mut i: usize = 0;
    while i < ITERATIONS
        invariant
            i <= ITERATIONS,
            data.len() == n,
            2 * n <= usize::MAX,
            par_samples@.len() == WARMUP_ITERATIONS + i,
            clock_samples(par_samples@),
            data@ == doubled_indices(n as nat),
        decreases ITERATIONS - i,
    {
        let elapsed = timed_parallel_fill(&mut data);
        log_sample(&mut par_samples, elapsed);
        i = i + 1;
    }
    let seq_stats = summarize_measured(&seq_samples, WARMUP_ITERATIONS);
    let par_stats = summarize_measured(&par_samples, WARMUP_ITERATIONS);
    CaseRun {
        result: BenchmarkResult {
            name: "For(indices)",
            size: n,
            ops: 1,
            baseline: seq_stats,
            candidate: par_stats,
        },
        baseline_samples: seq_samples,
        candidate_samples: par_samples,
        baseline_output: seq_data,
        candidate_output: data,
    }
}

/// Sorting a copy of `n` numbers drawn from the generator seeded with
/// 54321. Each backend ends with the numbers in ascending order. Also says
/// whether one more parallel sort left its copy in ascending order, which
/// it always does.
pub fn bench_parallel_sort(n: usize) -> (r: (CaseRun<Vec<i64>, Vec<i64>>, bool))
    ensures
        r.0.result.name@ == "Sort"@,
        r.0.result.size == n,
        r.0.result.ops == 1,
        r.0.follows_protocol(WARMUP_ITERATIONS as nat, ITERATIONS as nat),
        sorted_keys(r.0.baseline_output@, n as nat),
        sorted_keys(r.0.candidate_output@, n as nat),
        r.1,
{
    let mut rng = Rng::new(54321);
    let unsorted = random_keys(&mut rng, n);
    let baseline = || -> (out: Vec<i64>)
        ensures
            sorted_keys(out@, n as nat),
        { sequential_sort_unit(&unsorted) };
    let candidate = || -> (out: Vec<i64>)
        ensures
            sorted_keys(out@, n as nat),
        { parallel_sort_unit(&unsorted) };
    let (seq_trace, par_trace) = timing_loop(WARMUP_ITERATIONS, ITERATIONS, baseline, candidate);
    let test_data = parallel_sort_unit(&unsorted);
    let is_sorted = is_ascending(&test_data);
    (CaseRun::new("Sort", n, 1, seq_trace, par_trace), is_sorted)
}

/// The sum of `n` numbers below 1000, which has to fit in 64 bits, through
/// the iterator interface. Each backend ends with the sum.
pub fn bench_parallel_iter_sum(n: usize) -> (r: CaseRun<i64, i64>)
    requires
        999 * n <= i64::MAX,
    ensures
        r.result.name@ == "iter().sum()"@,
        r.result.size == n,
        r.result.ops == 1,
        r.follows_protocol(WARMUP_ITERATIONS as nat, ITERATIONS as nat),
        r.baseline_output == total(ramp_modulo_seq(n as nat, 1000)),
        r.candidate_output == total(ramp_modulo_seq(n as nat, 1000)),
{
    let data = ramp_modulo(n, 1000);
    proof {
        lemma_ramp_modulo_sums(n as nat);
    }
    let baseline = || -> (out: i64)
        ensures
            out == total(ramp_modulo_seq(n as nat, 1000)),
        { sequential_sum_unit(&data) };
    let candidate = || -> (out: i64)
        ensures
            out == total(ramp_modulo_seq(n as nat, 1000)),
        { parallel_sum_unit(&data) };
    let (seq_trace, par_trace) = timing_loop(WARMUP_ITERATIONS, ITERATIONS, baseline, candidate);
    CaseRun::new("iter().sum()", n, 1, seq_trace, par_trace)
}

/// The square of each of the numbers below `n`, into a new vector. Does not
/// run above `COLLECT_LIMIT`. Each backend ends with that vector.
pub fn bench_parallel_iter_map_collect(n: usize) -> (r: Option<CaseRun<Vec<i64>, Vec<i64>>>)
    ensures
        r is None <==> n > COLLECT_LIMIT,
        r matches Some(c) ==> {
            &&& c.result.name@ == "map().collect"@
            &&& c.result.size == n
            &&& c.result.ops == 1
            &&& c.follows_protocol(WARMUP_ITERATIONS as nat, ITERATIONS as nat)
            &&& c.baseline_output@ == ramp_seq(n as nat).map_values(|x: i64| (x * x) as i64)
            &&& c.candidate_output@ == ramp_seq(n as nat).map_values(|x: i64| (x * x) as i64)
        },
{
    if n > COLLECT_LIMIT {
        return None;
    }
    let data = ramp(n);
    proof {
        assert forall|i: int| 0 <= i < data.len() implies can_square(#[trigger] data[i]) by {
            let x = data[i] as int;
            assert(x * x <= 1_000_000 * 1_000_000) by (nonlinear_arith)
                requires
                    0 <= x <= 1_000_000,
            ;
        }
    }
    let baseline = || -> (out: Vec<i64>)
        ensures
            out@ == ramp_seq(n as nat).map_values(|x: i64| (x * x) as i64),
        { sequential_square_unit(&data) };
    let candidate = || -> (out: Vec<i64>)
        ensures
            out@ == ramp_seq(n as nat).map_values(|x: i64| (x * x) as i64),
        { parallel_square_unit(&data) };
    let (seq_trace, par_trace) = timing_loop(WARMUP_ITERATIONS, ITERATIONS, baseline, candidate);
    Some(CaseRun::new("map().collect", n, 1, seq_trace, par_trace))
}

/// The even ones among the numbers below `n`, into a new vector. Does not
/// run above `COLLECT_LIMIT`. Each backend ends with that vector.
pub fn bench_parallel_iter_filter(n: usize) -> (r: Option<CaseRun<Vec<i64>, Vec<i64>>>)
    ensures
        r is None <==> n > COLLECT_LIMIT,
        r matches Some(c) ==> {
            &&& c.result.name@ == "filter(even)"@
            &&& c.result.size == n
            &&& c.result.ops == 1
            &&& c.follows_protocol(WARMUP_ITERATIONS as nat, ITERATIONS as nat)
            &&& c.baseline_output@ == ramp_seq(n as nat).filter(|x: i64| x % 2 == 0)
            &&& c.candidate_output@ == ramp_seq(n as nat).filter(|x: i64| x % 2 == 0)
        },
{
    if n > COLLECT_LIMIT {
        return None;
    }
    let data = ramp(n);
    let baseline = || -> (out: Vec<i64>)
        ensures
            out@ == ramp_seq(n as nat).filter(|x: i64| x % 2 == 0),
        { sequential_filter_unit(&data) };
    let candidate = || -> (out: Vec<i64>)
        ensures
            out@ == ramp_seq(n as nat).filter(|x: i64| x % 2 == 0),
        { parallel_filter_unit(&data) };
    let (seq_trace, par_trace) = timing_loop(WARMUP_ITERATIONS, ITERATIONS, baseline, candidate);
    Some(CaseRun::new("filter(even)", n, 1, seq_trace, par_trace))
}

} // verus!
