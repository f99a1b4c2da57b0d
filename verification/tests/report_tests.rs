use bench_harness::report::{
    compare, cost_column, cost_quotient, quotient, BenchmarkResult, Comparison, JoinOverhead,
    Quotient,
};
use bench_harness::stats::Stats;

fn stats_of(samples: &[u128]) -> Stats {
    let mut stats = Stats::new();
    for s in samples {
        stats.add(*s);
    }
    stats
}

fn result(
    name: &'static str,
    ops: usize,
    candidate: &[u128],
    baseline: &[u128],
) -> BenchmarkResult {
    BenchmarkResult {
        name,
        size: ops,
        ops,
        baseline: stats_of(baseline),
        candidate: stats_of(candidate),
    }
}

#[test]
fn candidate_twice_as_fast() {
    let c = compare(200, 100);
    assert_eq!(c.speedup, Quotient::Finite { scaled: 200 });
    assert!(c.faster);
    assert_eq!(c.indicator(), '+');
}

#[test]
fn candidate_half_as_fast() {
    let c = compare(100, 200);
    assert_eq!(c.speedup, Quotient::Finite { scaled: 50 });
    assert!(!c.faster);
    assert_eq!(c.indicator(), '-');
}

#[test]
fn equal_costs_count_as_at_least_as_fast() {
    let c = compare(100, 100);
    assert_eq!(c, Comparison { speedup: Quotient::Finite { scaled: 100 }, faster: true });
    assert_eq!(c.indicator(), '+');
}

#[test]
fn candidate_without_cost_gives_the_infinite_sentinel() {
    let c = compare(100, 0);
    assert_eq!(c, Comparison { speedup: Quotient::Infinite, faster: true });
    assert_eq!(c.indicator(), '+');
}

#[test]
fn nothing_against_nothing_is_undefined() {
    let c = compare(0, 0);
    assert_eq!(c, Comparison { speedup: Quotient::Undefined, faster: false });
    assert_eq!(c.indicator(), '-');
}

#[test]
fn a_speedup_just_below_one_is_marked_slower_though_it_rounds_to_one() {
    let c = compare(999, 1000);
    assert_eq!(c.speedup, Quotient::Finite { scaled: 100 });
    assert_eq!(c.indicator(), '-');
}

#[test]
fn quotient_rounds_to_the_nearest_and_a_half_to_the_even() {
    assert_eq!(quotient(1, 3, 100), Quotient::Finite { scaled: 33 });
    assert_eq!(quotient(2, 3, 100), Quotient::Finite { scaled: 67 });
    assert_eq!(quotient(1, 201, 100), Quotient::Finite { scaled: 0 });
    assert_eq!(quotient(0, 5, 100), Quotient::Finite { scaled: 0 });
    // Halfway between two: to the even one.
    assert_eq!(quotient(1, 4, 10), Quotient::Finite { scaled: 2 });
    assert_eq!(quotient(3, 4, 10), Quotient::Finite { scaled: 8 });
    assert_eq!(quotient(1, 200, 100), Quotient::Finite { scaled: 0 });
    assert_eq!(quotient(3, 200, 100), Quotient::Finite { scaled: 2 });
    assert_eq!(quotient(5, 2, 1), Quotient::Finite { scaled: 2 });
    assert_eq!(quotient(7, 2, 1), Quotient::Finite { scaled: 4 });
    assert_eq!(quotient(45_500, 20_000, 100), Quotient::Finite { scaled: 228 });
}

#[test]
fn quotient_rounds_ties_as_float_formatting_does() {
    for (numerator, denominator, scale, decimals) in
        [(1u128, 4u128, 10u128, 1usize), (3, 4, 10, 1), (5, 2, 1, 0), (7, 2, 1, 0), (1, 8, 100, 2)]
    {
        let text = format!("{:.*}", decimals, numerator as f64 / denominator as f64);
        let digits: String = text.chars().filter(|c| *c != '.').collect();
        let expected: u128 = digits.parse().unwrap();
        assert_eq!(quotient(numerator, denominator, scale), Quotient::Finite { scaled: expected });
    }
}

#[test]
fn quotient_by_zero() {
    assert_eq!(quotient(1, 0, 10), Quotient::Infinite);
    assert_eq!(quotient(0, 0, 10), Quotient::Undefined);
}

#[test]
fn quotient_that_does_not_fit() {
    assert_eq!(quotient(u128::MAX, 1, 100), Quotient::TooLarge);
    assert_eq!(quotient(u128::MAX / 100 + 1, 3, 100), Quotient::TooLarge);
    assert_eq!(quotient(3, 7, u128::MAX), Quotient::TooLarge);
    assert_eq!(
        quotient(u128::MAX / 100, 1, 100),
        Quotient::Finite { scaled: 100 * (u128::MAX / 100) }
    );
    assert_eq!(quotient(u128::MAX, 1, 1), Quotient::Finite { scaled: u128::MAX });
    assert_eq!(quotient(u128::MAX, 2, 1), Quotient::Finite { scaled: u128::MAX / 2 + 1 });
    assert_eq!(quotient(u128::MAX - 1, 2, 1), Quotient::Finite { scaled: u128::MAX / 2 });
    assert_eq!(quotient(0, u128::MAX, 100), Quotient::Finite { scaled: 0 });
    assert_eq!(quotient(1, u128::MAX, 1), Quotient::Finite { scaled: 0 });
    assert_eq!(quotient(u128::MAX - 1, u128::MAX, 1), Quotient::Finite { scaled: 1 });
}

#[test]
fn speedup_of_a_result_is_the_ratio_of_the_averages() {
    let r = result("Insert (seq)", 1000, &[20_000], &[45_500]);
    assert_eq!(r.speedup(), Comparison { speedup: Quotient::Finite { scaled: 228 }, faster: true });
    let r = result("Insert (seq)", 0, &[20_000], &[45_500]);
    assert_eq!(r.speedup(), Comparison { speedup: Quotient::Undefined, faster: false });
}

#[test]
fn line_of_a_candidate_twice_as_fast() {
    let r = result("Twice", 1, &[100], &[200]);
    assert_eq!(r.speedup(), compare(200, 100));
    assert_eq!(
        r.table_line(),
        "  Twice          hb       100.0ns/op   std    200.0ns/op   +2.00x"
    );
}

#[test]
fn line_of_a_candidate_half_as_fast() {
    let r = result("Half", 1, &[200], &[100]);
    assert_eq!(r.speedup(), compare(100, 200));
    assert_eq!(
        r.table_line(),
        "  Half           hb       200.0ns/op   std    100.0ns/op   -0.50x"
    );
}

#[test]
fn table_line_of_a_faster_candidate() {
    let r = result("Insert (seq)", 1000, &[19_000, 21_000], &[45_500]);
    assert_eq!(
        r.table_line(),
        "  Insert (seq)   hb        20.0ns/op   std     45.5ns/op   +2.28x"
    );
}

#[test]
fn table_line_of_a_slower_candidate() {
    let r = result("Lookup (miss)", 1000, &[45_500], &[20_000]);
    assert_eq!(
        r.table_line(),
        "  Lookup (miss)  hb        45.5ns/op   std     20.0ns/op   -0.44x"
    );
}

#[test]
fn table_line_without_operations() {
    let r = result("Set contains", 0, &[], &[]);
    assert_eq!(
        r.table_line(),
        "  Set contains   hb         NaNns/op   std      NaNns/op   -NaNx"
    );
}

#[test]
fn table_line_of_a_candidate_without_cost() {
    let r = result("Remove", 2, &[0], &[7]);
    assert_eq!(
        r.table_line(),
        "  Remove         hb         0.0ns/op   std      3.5ns/op   +infx"
    );
}

#[test]
fn table_line_keeps_a_long_name_whole() {
    let r = result("A name of more than fourteen", 1, &[1], &[1]);
    assert_eq!(
        r.table_line(),
        "  A name of more than fourteen hb         1.0ns/op   std      1.0ns/op   +1.00x"
    );
}

#[test]
fn parallel_line_in_milliseconds() {
    let r = result("Sum", 1, &[456_789], &[1_234_567]);
    assert_eq!(
        r.parallel_line(),
        "  Sum:           seq    1.235ms   par    0.457ms   +2.70x speedup"
    );
    let r = result("Map(x*2+1)", 1, &[2_345_678], &[12_345_678_901]);
    assert_eq!(
        r.parallel_line(),
        "  Map(x*2+1):    seq 12345.679ms   par    2.346ms   +5263.16x speedup"
    );
}

#[test]
fn parallel_line_of_a_slower_candidate_has_a_minus() {
    let r = result("Slow", 1, &[250], &[100]);
    assert_eq!(
        r.parallel_line(),
        "  Slow:          seq    0.000ms   par    0.000ms   -0.40x speedup"
    );
}

#[test]
fn cost_column_is_the_exact_cost_rounded_to_tenths() {
    let stats = stats_of(&[1000]);
    assert_eq!(cost_column(&stats, 2000), Quotient::Finite { scaled: 5 });
    assert_eq!(cost_column(&stats, 3), Quotient::Finite { scaled: 3333 });
    assert_eq!(cost_column(&stats, 0), Quotient::Infinite);
    assert_eq!(cost_quotient(stats.ns_per_op(2000), 100), Quotient::Finite { scaled: 50 });
    let line = result("Half ns", 2000, &[1000], &[500]).table_line();
    assert_eq!(line, "  Half ns        hb         0.5ns/op   std      0.2ns/op   -0.50x");
}

#[test]
fn sort_line_says_whether_the_result_was_sorted() {
    let r = result("Sort", 1, &[456_789], &[1_234_567]);
    assert_eq!(
        r.sort_line(true),
        "  Sort:          seq    1.235ms   par    0.457ms   +2.70x speedup (sorted=true)"
    );
    assert_eq!(
        r.sort_line(false),
        "  Sort:          seq    1.235ms   par    0.457ms   +2.70x speedup (sorted=false)"
    );
}

#[test]
fn join_line_gives_the_time_of_one_join() {
    let j = JoinOverhead { iterations: 100_000, total_ns: 12_345_678, count: 300_000 };
    assert_eq!(j.line(), "Empty join: 123.5ns avg (total=300000)");
    let j = JoinOverhead { iterations: 0, total_ns: 5, count: -42 };
    assert_eq!(j.line(), "Empty join: infns avg (total=-42)");
    let j = JoinOverhead { iterations: 1, total_ns: 0, count: i64::MIN };
    assert_eq!(j.line(), "Empty join: 0.0ns avg (total=-9223372036854775808)");
}
