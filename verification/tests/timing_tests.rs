use bench_harness::clock::{elapsed_ns, nanos_from_parts, nanos_of, MAX_SAMPLE_NS};
use bench_harness::stats::Stats;
use bench_harness::timing::{
    log_sample, record, run_logged, run_protocol, summarize_measured, time_once, timing_loop,
};
use std::cell::Cell;
use std::time::{Duration, Instant};

fn fields(stats: &Stats) -> (u128, u128, u128, usize) {
    (stats.min_ns(), stats.max_ns(), stats.total_ns(), stats.count())
}

#[test]
fn one_measured_run_without_warmup() {
    let (baseline, candidate) = timing_loop(0, 1, || {}, || {});
    assert_eq!(baseline.stats.count(), 1);
    assert_eq!(candidate.stats.count(), 1);
    assert!(baseline.stats.avg_ns() <= MAX_SAMPLE_NS);
    assert!(candidate.stats.avg_ns() <= MAX_SAMPLE_NS);
    assert_eq!(baseline.stats.min_ns(), baseline.stats.max_ns());
    assert_eq!(baseline.samples, vec![baseline.stats.avg_ns()]);
    assert_eq!(baseline.last, Some(()));
}

#[test]
fn warmup_runs_are_run_and_not_counted() {
    let baseline_calls = Cell::new(0usize);
    let candidate_calls = Cell::new(0usize);
    let (baseline, candidate) = timing_loop(
        3,
        10,
        || baseline_calls.set(baseline_calls.get() + 1),
        || candidate_calls.set(candidate_calls.get() + 1),
    );
    assert_eq!(baseline_calls.get(), 13);
    assert_eq!(candidate_calls.get(), 13);
    assert_eq!(baseline.samples.len(), 13);
    assert_eq!(candidate.samples.len(), 13);
    assert_eq!(baseline.stats.count(), 10);
    assert_eq!(candidate.stats.count(), 10);
    assert_eq!(baseline.stats.total_ns(), baseline.samples[3..].iter().sum::<u128>());
    assert_eq!(candidate.stats.total_ns(), candidate.samples[3..].iter().sum::<u128>());
}

#[test]
fn timing_loop_hands_back_what_the_last_run_computed() {
    let calls = Cell::new(0u32);
    let (baseline, candidate) = timing_loop(
        1,
        2,
        || {
            calls.set(calls.get() + 1);
            calls.get()
        },
        || "done",
    );
    assert_eq!(baseline.last, Some(3));
    assert_eq!(candidate.last, Some("done"));
}

#[test]
fn no_measured_runs_give_no_samples() {
    let (baseline, candidate) = timing_loop(2, 0, || {}, || {});
    assert_eq!(baseline.stats.count(), 0);
    assert_eq!(candidate.stats.count(), 0);
    assert_eq!(baseline.stats.avg_ns(), 0);
    assert_eq!(baseline.samples.len(), 2);
}

#[test]
fn no_runs_at_all_give_no_output() {
    let (baseline, candidate) = timing_loop(0, 0, || 1, || 2);
    assert!(baseline.samples.is_empty() && candidate.samples.is_empty());
    assert_eq!(baseline.last, None);
    assert_eq!(candidate.last, None);
    assert_eq!(fields(&baseline.stats), (u128::MAX, 0, 0, 0));
}

#[test]
fn protocol_leaves_the_warmup_samples_out_of_the_statistics() {
    let baseline_next = Cell::new(0u128);
    let baseline = || {
        baseline_next.set(baseline_next.get() + 100);
        (baseline_next.get(), baseline_next.get() / 100)
    };
    let candidate = || (50u128, 'c');
    let (b, c) = run_protocol(2, 5, &baseline, &candidate);
    assert_eq!(b.samples, vec![100, 200, 300, 400, 500, 600, 700]);
    assert_eq!(fields(&b.stats), (300, 700, 2500, 5));
    assert_eq!(b.stats.avg_ns(), 500);
    assert_eq!(b.last, Some(7));
    assert_eq!(c.samples, vec![50; 7]);
    assert_eq!(fields(&c.stats), (50, 50, 250, 5));
    assert_eq!(c.last, Some('c'));
}

#[test]
fn warmup_readings_do_not_change_the_statistics() {
    let run = |warmup_reading: u128| {
        let calls = Cell::new(0usize);
        let unit = || {
            calls.set(calls.get() + 1);
            (if calls.get() <= 2 { warmup_reading } else { 10 * calls.get() as u128 }, ())
        };
        let (b, _) = run_protocol(2, 5, &unit, &|| (1u128, ()));
        assert_eq!(calls.get(), 7);
        fields(&b.stats)
    };
    assert_eq!(run(1), run(1_000_000_000));
    assert_eq!(run(1), (30, 70, 250, 5));
}

#[test]
fn one_backend_finishes_before_the_other_starts() {
    let log = std::cell::RefCell::new(Vec::new());
    let baseline = || {
        log.borrow_mut().push('b');
        (1u128, ())
    };
    let candidate = || {
        log.borrow_mut().push('c');
        (1u128, ())
    };
    run_protocol(1, 2, &baseline, &candidate);
    assert_eq!(*log.borrow(), vec!['b', 'c', 'b', 'b', 'c', 'c']);
}

#[test]
fn a_unit_with_one_report_pins_the_statistics() {
    let baseline = || (100u128, ());
    let candidate = || (50u128, ());
    let (b, c) = run_protocol(3, 10, &baseline, &candidate);
    assert_eq!(fields(&b.stats), (100, 100, 1000, 10));
    assert_eq!(fields(&c.stats), (50, 50, 500, 10));
    assert_eq!((b.stats.avg_ns(), c.stats.avg_ns()), (100, 50));
}

#[test]
fn summarize_measured_drops_the_first_samples() {
    let samples = vec![900, 800, 30, 50, 10];
    assert_eq!(fields(&summarize_measured(&samples, 2)), (10, 50, 90, 3));
    assert_eq!(fields(&summarize_measured(&samples, 0)), (10, 900, 1790, 5));
    assert_eq!(fields(&summarize_measured(&samples, 4)), (10, 10, 10, 1));
    assert_eq!(fields(&summarize_measured(&samples, 5)), (u128::MAX, 0, 0, 0));
    assert_eq!(fields(&summarize_measured(&samples, 6)), (u128::MAX, 0, 0, 0));
    assert_eq!(fields(&summarize_measured(&vec![], 0)), (u128::MAX, 0, 0, 0));
}

#[test]
fn run_logged_writes_one_run_into_the_log() {
    let calls = Cell::new(0u128);
    let unit = || {
        calls.set(calls.get() + 1);
        (calls.get() * 10, calls.get())
    };
    let mut samples = Vec::new();
    let mut last = None;
    run_logged(&unit, &mut samples, &mut last);
    assert_eq!((samples.clone(), last), (vec![10], Some(1)));
    run_logged(&unit, &mut samples, &mut last);
    assert_eq!((samples, last), (vec![10, 20], Some(2)));
}

#[test]
fn log_sample_appends() {
    let mut samples = vec![5];
    log_sample(&mut samples, 9);
    log_sample(&mut samples, MAX_SAMPLE_NS);
    assert_eq!(samples, vec![5, 9, MAX_SAMPLE_NS]);
}

#[test]
fn record_takes_a_sample_in() {
    let mut stats = Stats::new();
    record(&mut stats, 30);
    record(&mut stats, 50);
    assert_eq!(fields(&stats), (30, 50, 80, 2));
    record(&mut stats, MAX_SAMPLE_NS);
    assert_eq!(stats.count(), 3);
    assert_eq!(stats.max_ns(), MAX_SAMPLE_NS);
}

#[test]
fn nanoseconds_from_seconds_and_the_rest() {
    assert_eq!(nanos_from_parts(0, 0), 0);
    assert_eq!(nanos_from_parts(3, 7), 3_000_000_007);
    assert_eq!(nanos_from_parts(u64::MAX, 999_999_999), MAX_SAMPLE_NS);
}

#[test]
fn nanos_of_a_duration() {
    assert_eq!(nanos_of(&Duration::new(0, 0)), 0);
    assert_eq!(nanos_of(&Duration::new(2, 5)), 2_000_000_005);
    assert_eq!(nanos_of(&Duration::from_millis(1500)), 1_500_000_000);
    assert_eq!(nanos_of(&Duration::new(u64::MAX, 999_999_999)), MAX_SAMPLE_NS);
    assert_eq!(nanos_of(&Duration::new(7, 123)), Duration::new(7, 123).as_nanos());
}

#[test]
fn elapsed_time_grows() {
    let start = Instant::now();
    let first = elapsed_ns(&start);
    while start.elapsed() < Duration::from_millis(2) {}
    let second = elapsed_ns(&start);
    assert!(second >= first);
    assert!(second >= 2_000_000);
    assert!(second <= MAX_SAMPLE_NS);
}

#[test]
fn time_once_runs_the_unit_once() {
    let calls = Cell::new(0usize);
    let unit = || {
        calls.set(calls.get() + 1);
        let begin = Instant::now();
        while begin.elapsed() < Duration::from_millis(1) {}
        calls.get() * 7
    };
    let (ns, out) = time_once(&unit);
    assert_eq!(calls.get(), 1);
    assert_eq!(out, 7);
    assert!(ns >= 1_000_000);
}
