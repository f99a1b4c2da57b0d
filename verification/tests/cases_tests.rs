use bench_harness::clock::elapsed_ns;
use bench_harness::map_cases::{
    bench_entry_api, bench_insert_prealloc, bench_insert_random, bench_insert_sequential,
    bench_insert_unique, bench_iteration, bench_keys_iteration, bench_lookup_hit,
    bench_lookup_miss, bench_lookup_random, bench_remove, bench_remove_and_reinsert,
};
use bench_harness::members::Members;
use bench_harness::parallel_cases::{
    bench_parallel_for, bench_parallel_iter_filter, bench_parallel_iter_map_collect,
    bench_parallel_iter_sum, bench_parallel_map, bench_parallel_reduce, bench_parallel_sort,
    bench_parallel_sum,
};
use bench_harness::report::CaseRun;
use bench_harness::rng::{random_keys, random_keys_below, Rng};
use bench_harness::suite::{parallel_sizes, runs_set_cases, runs_sort_case, table_sizes};
use bench_harness::set_cases::{
    bench_set_contains, bench_set_insert, bench_set_intersection, bench_set_union,
};
use bench_harness::table::Table;
use bench_harness::timing::summarize_measured;
use std::cell::Cell;

fn check<B, C>(
    r: &CaseRun<B, C>,
    name: &str,
    size: usize,
    ops: usize,
    warmup: usize,
    measured: usize,
) {
    assert_eq!(r.result.name, name);
    assert_eq!(r.result.size, size);
    assert_eq!(r.result.ops, ops);
    for (stats, samples) in
        [(&r.result.baseline, &r.baseline_samples), (&r.result.candidate, &r.candidate_samples)]
    {
        assert_eq!(samples.len(), warmup + measured);
        assert_eq!(stats.count(), measured);
        let again = summarize_measured(samples, warmup);
        assert_eq!(
            (stats.min_ns(), stats.max_ns(), stats.total_ns()),
            (again.min_ns(), again.max_ns(), again.total_ns())
        );
        assert_eq!(stats.total_ns(), samples[warmup..].iter().sum::<u128>());
        assert!(stats.min_ns() <= stats.avg_ns() && stats.avg_ns() <= stats.max_ns());
    }
}

fn entries<T: Table>(map: &T, upto: i64) -> Vec<(i64, i64)> {
    (-2..upto).filter_map(|k| map.find(k).map(|v| (k, v))).collect()
}

fn members<S: Members>(set: &S, upto: i64) -> Vec<i64> {
    (-2..upto).filter(|k| set.has(*k)).collect()
}

fn identity(n: i64) -> Vec<(i64, i64)> {
    (0..n).map(|k| (k, k)).collect()
}

#[test]
fn insert_cases_end_with_the_filled_maps() {
    for r in [bench_insert_sequential(200), bench_insert_prealloc(200)] {
        assert_eq!(entries(&r.baseline_output, 300), identity(200));
        assert_eq!(entries(&r.candidate_output, 300), identity(200));
    }
    check(&bench_insert_sequential(200), "Insert (seq)", 200, 200, 2, 5);
    check(&bench_insert_prealloc(200), "Insert (pre)", 200, 200, 2, 5);
}

#[test]
fn insert_random_ends_with_the_drawn_keys() {
    let r = bench_insert_random(200);
    check(&r, "Insert (rnd)", 200, 200, 2, 5);
    let keys = random_keys(&mut Rng::new(12345), 200);
    for k in keys {
        assert_eq!(r.baseline_output.find(k), Some(k));
        assert_eq!(r.candidate_output.find(k), Some(k));
    }
    assert_eq!(r.candidate_output.find(0), None);
}

#[test]
fn insert_unique_runs_the_candidate_of_its_caller() {
    let calls = Cell::new(0usize);
    let candidate = || {
        calls.set(calls.get() + 1);
        let start = std::time::Instant::now();
        (elapsed_ns(&start), calls.get())
    };
    let r = bench_insert_unique(200, &candidate);
    check(&r, "InsertUnique", 200, 200, 2, 5);
    assert_eq!(calls.get(), 7);
    assert_eq!(r.candidate_output, 7);
    assert_eq!(entries(&r.baseline_output, 300), identity(200));
}

#[test]
fn lookup_cases_end_with_what_they_found() {
    let r = bench_lookup_hit(200);
    check(&r, "Lookup (hit)", 200, 200, 2, 5);
    assert_eq!((r.baseline_output, r.candidate_output), (19_900, 19_900));
    let r = bench_lookup_miss(200);
    check(&r, "Lookup (miss)", 200, 200, 2, 5);
    assert_eq!((r.baseline_output, r.candidate_output), (200, 200));
}

#[test]
fn lookup_random_probes_the_keys_drawn_below_twice_the_size() {
    let r = bench_lookup_random(200);
    check(&r, "Lookup (rnd)", 200, 200, 2, 5);
    let keys = random_keys_below(&mut Rng::new(54321), 200, 400);
    assert!(keys.iter().all(|k| 0 <= *k && *k < 400));
    let expected: i64 = keys.iter().filter(|k| **k < 200).sum();
    assert_eq!(r.baseline_output, expected);
    assert_eq!(r.candidate_output, expected);
    let again = bench_lookup_random(200);
    assert_eq!(again.candidate_output, expected);
}

#[test]
fn remove_cases_end_with_the_maps_as_stated() {
    let r = bench_remove(200);
    check(&r, "Remove", 200, 200, 2, 5);
    assert_eq!(entries(&r.baseline_output, 300), vec![]);
    assert_eq!(entries(&r.candidate_output, 300), vec![]);
    let r = bench_remove_and_reinsert(201);
    check(&r, "Remove+Reins", 201, 201, 2, 5);
    assert_eq!(entries(&r.baseline_output, 300), identity(201));
    assert_eq!(entries(&r.candidate_output, 300), identity(201));
}

#[test]
fn iteration_cases_end_with_their_checksums() {
    let r = bench_iteration(200);
    check(&r, "Iterate", 200, 200, 2, 5);
    assert_eq!((r.baseline_output, r.candidate_output), (39_800, 39_800));
    let r = bench_keys_iteration(200);
    check(&r, "Keys iter", 200, 200, 2, 5);
    assert_eq!((r.baseline_output, r.candidate_output), (19_900, 19_900));
}

#[test]
fn entry_case_ends_with_the_counts() {
    let r = bench_entry_api(7);
    check(&r, "Entry API", 7, 7, 2, 5);
    assert_eq!(entries(&r.baseline_output, 10), vec![(0, 3), (1, 2), (2, 2)]);
    assert_eq!(entries(&r.candidate_output, 10), vec![(0, 3), (1, 2), (2, 2)]);
    check(&bench_entry_api(200), "Entry API", 200, 200, 2, 5);
}

#[test]
fn set_cases_end_with_their_sets() {
    let r = bench_set_insert(200);
    check(&r, "Set insert", 200, 200, 2, 5);
    assert_eq!(members(&r.candidate_output, 300), (0..200).collect::<Vec<i64>>());
    assert_eq!(members(&r.baseline_output, 300), (0..200).collect::<Vec<i64>>());
    let r = bench_set_contains(200);
    check(&r, "Set contains", 200, 400, 2, 5);
    assert_eq!((r.baseline_output, r.candidate_output), (200, 200));
    let r = bench_set_union(200);
    check(&r, "Set union", 200, 200, 2, 5);
    assert_eq!(members(&r.candidate_output, 400), (0..300).collect::<Vec<i64>>());
    assert_eq!(members(&r.baseline_output, 400), (0..300).collect::<Vec<i64>>());
    let r = bench_set_intersection(201);
    check(&r, "Set intersect", 201, 201, 2, 5);
    assert_eq!(members(&r.candidate_output, 400), (100..201).collect::<Vec<i64>>());
    assert_eq!(members(&r.baseline_output, 400), (100..201).collect::<Vec<i64>>());
}

#[test]
fn cases_on_no_input() {
    check(&bench_insert_sequential(0), "Insert (seq)", 0, 0, 2, 5);
    let r = bench_lookup_random(0);
    check(&r, "Lookup (rnd)", 0, 0, 2, 5);
    assert_eq!(r.candidate_output, 0);
    check(&bench_entry_api(0), "Entry API", 0, 0, 2, 5);
    check(&bench_set_contains(0), "Set contains", 0, 0, 2, 5);
    check(&bench_set_union(0), "Set union", 0, 0, 2, 5);
    let r = bench_parallel_sum(0);
    check(&r, "Sum", 0, 1, 3, 10);
    assert_eq!(r.candidate_output, 0);
}

#[test]
fn parallel_cases_end_with_what_they_computed() {
    let r = bench_parallel_sum(2500);
    check(&r, "Sum", 2500, 1, 3, 10);
    assert_eq!((r.baseline_output, r.candidate_output), (1_123_750, 1_123_750));
    let r = bench_parallel_iter_sum(2500);
    check(&r, "iter().sum()", 2500, 1, 3, 10);
    assert_eq!((r.baseline_output, r.candidate_output), (1_123_750, 1_123_750));
    let r = bench_parallel_reduce(500);
    check(&r, "Reduce(max)", 500, 1, 3, 10);
    let max = *random_keys_below(&mut Rng::new(12345), 500, 1_000_000).iter().max().unwrap();
    assert_eq!((r.baseline_output, r.candidate_output), (max, max));
    let r = bench_parallel_for(500);
    check(&r, "For(indices)", 500, 1, 3, 10);
    let doubled: Vec<u64> = (0..500).map(|i| 2 * i).collect();
    assert_eq!(r.baseline_output, doubled);
    assert_eq!(r.candidate_output, doubled);
}

#[test]
fn parallel_sort_case_is_always_sorted() {
    let (r, sorted) = bench_parallel_sort(500);
    check(&r, "Sort", 500, 1, 3, 10);
    assert!(sorted);
    let mut expected = random_keys(&mut Rng::new(54321), 500);
    expected.sort();
    assert_eq!(r.baseline_output, expected);
    assert_eq!(r.candidate_output, expected);
}

#[test]
fn collecting_cases_run_up_to_their_limit() {
    let r = bench_parallel_map(500).unwrap();
    check(&r, "Map(x*2+1)", 500, 1, 3, 10);
    assert_eq!(r.candidate_output, (0..500).map(|x| 2 * x + 1).collect::<Vec<i64>>());
    assert_eq!(r.baseline_output, r.candidate_output);
    let r = bench_parallel_iter_map_collect(500).unwrap();
    check(&r, "map().collect", 500, 1, 3, 10);
    assert_eq!(r.candidate_output, (0..500).map(|x| x * x).collect::<Vec<i64>>());
    assert_eq!(r.baseline_output, r.candidate_output);
    let r = bench_parallel_iter_filter(500).unwrap();
    check(&r, "filter(even)", 500, 1, 3, 10);
    assert_eq!(r.candidate_output, (0..250).map(|x| 2 * x).collect::<Vec<i64>>());
    assert_eq!(r.baseline_output, r.candidate_output);
    assert!(bench_parallel_map(1_000_001).is_none());
    assert!(bench_parallel_iter_map_collect(1_000_001).is_none());
    assert!(bench_parallel_iter_filter(10_000_000).is_none());
}

#[test]
fn sizes_of_the_suites() {
    assert_eq!(table_sizes(), vec![1_000, 10_000, 100_000, 1_000_000]);
    assert_eq!(parallel_sizes(), vec![1_000, 10_000, 100_000, 1_000_000, 10_000_000]);
}

#[test]
fn cases_left_out_above_a_size() {
    assert!(runs_set_cases(100_000));
    assert!(!runs_set_cases(100_001));
    assert!(runs_sort_case(1_000_000));
    assert!(!runs_sort_case(10_000_000));
}
