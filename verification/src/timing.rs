//! The measurement protocol: warmup runs whose timings are discarded, then
//! measured runs, each of which gives one sample.
//!
//! Every run is logged with its sample. Which samples count is decided in
//! one place, `summarize_measured`: the samples of the warmup runs, the
//! first in the log, stay out of the statistics.

use vstd::prelude::*;
use crate::clock::{elapsed_ns, MAX_SAMPLE_NS};
use crate::stats::{lemma_push_keeps_wf, Stats, Summary};

verus! {

/// The most samples that one accumulator takes: with so many samples of
/// `MAX_SAMPLE_NS` each the total still fits in 128 bits, with one more it
/// does not.
pub const MAX_SAMPLES: u128 = 18_446_744_073;

/// A summary that clock samples alone have produced, fewer than
/// `MAX_SAMPLES` of them.
pub open spec fn in_protocol(s: Summary) -> bool {
    s.wf() && s.max <= MAX_SAMPLE_NS && s.count < MAX_SAMPLES
}

/// Fewer than `MAX_SAMPLES` clock samples leave room for one more.
proof fn lemma_total_bound(s: Summary)
    requires
        in_protocol(s),
    ensures
        s.total + MAX_SAMPLE_NS <= u128::MAX,
{
    if s.count > 0 {
        assert(s.count * s.max <= 18_446_744_072 * MAX_SAMPLE_NS) by (nonlinear_arith)
            requires
                s.count <= 18_446_744_072,
                s.max <= MAX_SAMPLE_NS,
        ;
    }
}

/// Takes the sample of one measured run in: with clock samples alone, and
/// fewer of them than `MAX_SAMPLES`, the total cannot overflow.
pub fn record(stats: &mut Stats, ns: u128)
    requires
        in_protocol(old(stats)@),
        old(stats)@.count + 1 < MAX_SAMPLES,
        old(stats)@.count < usize::MAX,
        ns <= MAX_SAMPLE_NS,
    ensures
        final(stats)@ == old(stats)@.push(ns as nat),
        in_protocol(final(stats)@),
{
    proof {
        lemma_total_bound(stats@);
        lemma_push_keeps_wf(stats@, ns as nat);
    }
    stats.add(ns);
}

/// Every sample is one that the clock can give.
pub open spec fn clock_samples(samples: Seq<u128>) -> bool {
    forall|i: int| 0 <= i < samples.len() ==> #[trigger] samples[i] <= MAX_SAMPLE_NS
}

/// The samples of the measured runs: all but the first `warmup`, which are
/// the samples of the warmup runs.
pub open spec fn measured_part(samples: Seq<u128>, warmup: nat) -> Seq<u128> {
    if warmup <= samples.len() {
        samples.skip(warmup as int)
    } else {
        Seq::empty()
    }
}

/// The statistics of a run of the protocol: the summary of the samples of
/// its measured runs. The samples of the warmup runs do not enter.
pub open spec fn measured_summary(samples: Seq<u128>, warmup: nat) -> Summary {
    Summary::of(measured_part(samples, warmup))
}

/// Decides which samples count: drops the first `warmup` samples, those of
/// the warmup runs, and takes every later one in.
pub fn summarize_measured(samples: &Vec<u128>, warmup: usize) -> (stats: Stats)
    requires
        clock_samples(samples@),
        samples.len() - warmup < MAX_SAMPLES,
    ensures
        stats@ == measured_summary(samples@, warmup as nat),
        stats@.count == measured_part(samples@, warmup as nat).len(),
        in_protocol(stats@),
{
    let mut stats = Stats::new();
    if warmup > samples.len() {
        return stats;
    }
    let mut i: usize = warmup;
    assert(samples@.subrange(warmup as int, warmup as int) =~= Seq::<u128>::empty());
    while i < samples.len()
        invariant
            warmup <= i <= samples.len(),
            clock_samples(samples@),
            samples.len() - warmup < MAX_SAMPLES,
            stats@ == Summary::of(samples@.subrange(warmup as int, i as int)),
            stats@.count == i - warmup,
            in_protocol(stats@),
        decreases samples.len() - i,
    {
        proof {
            let longer = samples@.subrange(warmup as int, i + 1);
            assert(longer.drop_last() =~= samples@.subrange(warmup as int, i as int));
            assert(longer.last() == samples@[i as int]);
        }
        record(&mut stats, samples[i]);
        i = i + 1;
    }
    assert(samples@.subrange(warmup as int, samples.len() as int) =~= samples@.skip(warmup as int));
    stats
}

/// Writes the sample of one run behind the samples so far.
pub fn log_sample(samples: &mut Vec<u128>, ns: u128)
    requires
        clock_samples(old(samples)@),
        ns <= MAX_SAMPLE_NS,
    ensures
        final(samples)@ == old(samples)@.push(ns),
        clock_samples(final(samples)@),
{
    samples.push(ns);
}

/// A unit of work that can be run, and that reports the nanoseconds of its
/// timed part as a sample, together with what the run computed.
pub open spec fn reports_samples<T, F: Fn() -> (u128, T)>(unit: F) -> bool {
    unit.requires(()) && forall|r: (u128, T)| unit.ensures((), r) ==> r.0 <= MAX_SAMPLE_NS
}

/// `ns` is a sample that a run of `unit` can report.
pub open spec fn reports<T, F: Fn() -> (u128, T)>(unit: F, ns: u128) -> bool {
    exists|out: T| unit.ensures((), (ns, out))
}

/// `out` is what a run of `unit` can compute.
pub open spec fn computes<T, F: Fn() -> (u128, T)>(unit: F, out: T) -> bool {
    exists|ns: u128| unit.ensures((), (ns, out))
}

/// `samples` and `last` are the log of some runs of `unit`: every sample is
/// one that a run reported, and `last` is what a run computed, or `None`
/// where there was no run.
pub open spec fn logged<T, F: Fn() -> (u128, T)>(
    samples: Seq<u128>,
    last: Option<T>,
    unit: F,
) -> bool {
    &&& clock_samples(samples)
    &&& forall|i: int| 0 <= i < samples.len() ==> reports(unit, #[trigger] samples[i])
    &&& last is None <==> samples.len() == 0
    &&& last matches Some(out) ==> computes(unit, out)
}

/// What the runs of one backend gave under the protocol.
pub struct Trace<T> {
    /// The sample of every run in the order of the runs, those of the
    /// warmup runs first.
    pub samples: Vec<u128>,
    /// The statistics of the measured runs.
    pub stats: Stats,
    /// What the last run computed; `None` where there was no run.
    pub last: Option<T>,
}

impl<T> Trace<T> {
    /// The trace of `warmup` warmup runs and `measured` measured runs: one
    /// sample for each run, and statistics of the measured runs alone.
    pub open spec fn covers(&self, warmup: nat, measured: nat) -> bool {
        &&& self.samples@.len() == warmup + measured
        &&& clock_samples(self.samples@)
        &&& self.stats@ == measured_summary(self.samples@, warmup)
        &&& self.stats@.count == measured
        &&& in_protocol(self.stats@)
        &&& self.last is None <==> warmup + measured == 0
    }

    /// The trace of that many runs of a unit that times itself.
    pub open spec fn follows<F: Fn() -> (u128, T)>(
        &self,
        unit: F,
        warmup: nat,
        measured: nat,
    ) -> bool {
        self.covers(warmup, measured) && logged(self.samples@, self.last, unit)
    }

    /// The trace of that many runs of a unit that the timing loop has
    /// timed: what the last run computed is what the unit ensures.
    pub open spec fn times<F: Fn() -> T>(&self, unit: F, warmup: nat, measured: nat) -> bool {
        self.covers(warmup, measured) && (self.last matches Some(out) ==> unit.ensures((), out))
    }
}

/// Runs `unit` once and writes the run into the log: its sample behind the
/// samples so far, and what it computed in the place of what the run before
/// computed.
pub fn run_logged<T, F: Fn() -> (u128, T)>(unit: &F, samples: &mut Vec<u128>, last: &mut Option<T>)
    requires
        reports_samples(*unit),
        logged(old(samples)@, *old(last), *unit),
    ensures
        logged(final(samples)@, *final(last), *unit),
        final(samples)@.len() == old(samples)@.len() + 1,
        final(samples)@.drop_last() == old(samples)@,
{
    let (ns, out) = unit();
    samples.push(ns);
    *last = Some(out);
    proof {
        assert(reports(*unit, ns));
        assert(computes(*unit, out));
        assert(samples@.drop_last() =~= old(samples)@);
        assert forall|i: int| 0 <= i < samples@.len() implies reports(
            *unit,
            #[trigger] samples@[i],
        ) && samples@[i] <= MAX_SAMPLE_NS by {
            if i < old(samples)@.len() {
                assert(samples@[i] == old(samples)@[i]);
            }
        }
    }
}

/// The protocol on two units that time themselves: `warmup_count` runs of
/// each, then `measured_count` runs of the baseline, then as many of the
/// candidate. One backend's measured runs end before the other's begin.
/// Every run is logged; `summarize_measured` then leaves the samples of the
/// warmup runs out of the statistics. Returns the trace of the baseline and
/// that of the candidate, in this order.
pub fn run_protocol<TB, TC, B: Fn() -> (u128, TB), C: Fn() -> (u128, TC)>(
    warmup_count: usize,
    measured_count: usize,
    baseline: &B,
    candidate: &C,
) -> (r: (Trace<TB>, Trace<TC>))
    requires
        reports_samples(*baseline),
        reports_samples(*candidate),
        measured_count < MAX_SAMPLES,
    ensures
        r.0.follows(*baseline, warmup_count as nat, measured_count as nat),
        r.1.follows(*candidate, warmup_count as nat, measured_count as nat),
{
    let mut baseline_samples: Vec<u128> = Vec::new();
    let mut candidate_samples: Vec<u128> = Vec::new();
    let mut baseline_last: Option<TB> = None;
    let mut candidate_last: Option<TC> = None;
    let mut w: usize = 0;
    while w < warmup_count
        invariant
            w <= warmup_count,
            reports_samples(*baseline),
            reports_samples(*candidate),
            baseline_samples@.len() == w,
            candidate_samples@.len() == w,
            logged(baseline_samples@, baseline_last, *baseline),
            logged(candidate_samples@, candidate_last, *candidate),
        decreases warmup_count - w,
    {
        run_logged(baseline, &mut baseline_samples, &mut baseline_last);
        run_logged(candidate, &mut candidate_samples, &mut candidate_last);
        w = w + 1;
    }
    let mut i: usize = 0;
    while i < measured_count
        invariant
            i <= measured_count,
            reports_samples(*baseline),
            baseline_samples@.len() == warmup_count + i,
            logged(baseline_samples@, baseline_last, *baseline),
        decreases measured_count - i,
    {
        run_logged(baseline, &mut baseline_samples, &mut baseline_last);
        i = i + 1;
    }
    let mut i: usize = 0;
    while i < measured_count
        invariant
            i <= measured_count,
            reports_samples(*candidate),
            candidate_samples@.len() == warmup_count + i,
            logged(candidate_samples@, candidate_last, *candidate),
        decreases measured_count - i,
    {
        run_logged(candidate, &mut candidate_samples, &mut candidate_last);
        i = i + 1;
    }
    let baseline_stats = summarize_measured(&baseline_samples, warmup_count);
    let candidate_stats = summarize_measured(&candidate_samples, warmup_count);
    (
        Trace { samples: baseline_samples, stats: baseline_stats, last: baseline_last },
        Trace { samples: candidate_samples, stats: candidate_stats, last: candidate_last },
    )
}

/// Runs `unit` once and gives the nanoseconds that it took, and what the
/// run computed.
pub fn time_once<T, F: Fn() -> T>(unit: &F) -> (r: (u128, T))
    requires
        unit.requires(()),
    ensures
        unit.ensures((), r.1),
        r.0 <= MAX_SAMPLE_NS,
{
    let start = std::time::Instant::now();
    let out = unit();
    let elapsed = elapsed_ns(&start);
    (elapsed, out)
}

/// The timing loop on two units of work: `warmup_count` runs of each whose
/// timings are discarded, then `measured_count` timed runs of the baseline,
/// then as many of the candidate. Returns the trace of the baseline and
/// that of the candidate, in this order.
pub fn timing_loop<TB, TC, B: Fn() -> TB, C: Fn() -> TC>(
    warmup_count: usize,
    measured_count: usize,
    baseline: B,
    candidate: C,
) -> (r: (Trace<TB>, Trace<TC>))
    requires
        baseline.requires(()),
        candidate.requires(()),
        measured_count < MAX_SAMPLES,
    ensures
        r.0.times(baseline, warmup_count as nat, measured_count as nat),
        r.1.times(candidate, warmup_count as nat, measured_count as nat),
{
    let baseline_unit = &baseline;
    let candidate_unit = &candidate;
    let timed_baseline = || -> (t: (u128, TB))
        ensures
            t.0 <= MAX_SAMPLE_NS,
            baseline_unit.ensures((), t.1),
        { time_once(baseline_unit) };
    let timed_candidate = || -> (t: (u128, TC))
        ensures
            t.0 <= MAX_SAMPLE_NS,
            candidate_unit.ensures((), t.1),
        { time_once(candidate_unit) };
    run_protocol(warmup_count, measured_count, &timed_baseline, &timed_candidate)
}

} // verus!
