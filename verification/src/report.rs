//! The result of one benchmark case, the comparison of its two backends,
//! and the lines of the report.

use vstd::prelude::*;
use vstd::string::*;
use crate::stats::{PerOp, Stats};
use crate::text::{
    fixed_text, left_aligned, push_digits, push_fixed, push_left_aligned, push_right_aligned,
    right_aligned, digits,
};
use crate::timing::{clock_samples, in_protocol, measured_summary, Trace};

verus! {

/// A quotient of two numbers that are not negative, rounded to a fixed
/// number of decimals: to the nearest, and where it lies halfway between
/// two, to the one with the even last digit.
#[derive(Clone, Copy, Debug, PartialEq, Eq, Structural)]
pub enum Quotient {
    /// The quotient times ten to the number of decimals, rounded to a whole
    /// number.
    Finite { scaled: u128 },
    /// A positive number divided by 0.
    Infinite,
    /// 0 divided by 0.
    Undefined,
    /// The rounding would need a number of more than 128 bits.
    TooLarge,
}

/// `numerator / denominator` rounded to the nearest whole number; where it
/// lies halfway between two, to the even one.
pub open spec fn rounded_half_even(numerator: nat, denominator: nat) -> nat {
    let floor = numerator / denominator;
    let rest = numerator % denominator;
    if 2 * rest > denominator || (2 * rest == denominator && floor % 2 == 1) {
        floor + 1
    } else {
        floor
    }
}

/// `numerator / denominator`, in units of `1 / scale`.
pub open spec fn quotient_of(numerator: nat, denominator: nat, scale: nat) -> Quotient {
    if denominator == 0 {
        if numerator == 0 {
            Quotient::Undefined
        } else {
            Quotient::Infinite
        }
    } else if scale * numerator > u128::MAX {
        Quotient::TooLarge
    } else {
        Quotient::Finite { scaled: rounded_half_even(scale * numerator, denominator) as u128 }
    }
}

/// Whether `baseline / candidate` is at least 1: the candidate is at least
/// as fast as the baseline. A positive cost against none counts as that;
/// none against none does not.
pub open spec fn at_least_as_fast(baseline: nat, candidate: nat) -> bool {
    if candidate == 0 {
        baseline > 0
    } else {
        baseline >= candidate
    }
}

/// The text of a quotient with `decimals` decimals.
pub open spec fn quotient_text(q: Quotient, decimals: nat) -> Seq<char> {
    match q {
        Quotient::Finite { scaled } => fixed_text(scaled as nat, decimals),
        Quotient::Infinite => "inf"@,
        Quotient::Undefined => "NaN"@,
        Quotient::TooLarge => "overflow"@,
    }
}

/// `numerator / denominator`, in units of `1 / scale`.
pub fn quotient(numerator: u128, denominator: u128, scale: u128) -> (q: Quotient)
    ensures
        q == quotient_of(numerator as nat, denominator as nat, scale as nat),
{
    if denominator == 0 {
        return if numerator == 0 {
            Quotient::Undefined
        } else {
            Quotient::Infinite
        };
    }
    let product = match scale.checked_mul(numerator) {
        Some(x) => x,
        None => {
            return Quotient::TooLarge;
        },
    };
    let floor = product / denominator;
    let rest = product % denominator;
    let room = denominator - rest;
    let up = rest > room || (rest == room && floor % 2 == 1);
    if up {
        assert(floor * denominator + rest == product && floor < product) by (nonlinear_arith)
            requires
                floor == product / denominator,
                rest == product % denominator,
                rest > 0,
                denominator >= 2,
        ;
        Quotient::Finite { scaled: floor + 1 }
    } else {
        Quotient::Finite { scaled: floor }
    }
}

/// The cost of one operation, rounded to units of `1 / scale`.
pub fn cost_quotient(cost: PerOp, scale: u128) -> (q: Quotient)
    requires
        cost.times_ops() <= u128::MAX,
    ensures
        q == quotient_of(cost.times_ops(), cost.ops as nat, scale as nat),
{
    assert(cost.whole * cost.ops <= cost.times_ops()) by (nonlinear_arith)
        requires
            cost.times_ops() == cost.whole * cost.ops + cost.rest,
    ;
    quotient(cost.whole * (cost.ops as u128) + cost.rest, cost.ops as u128, scale)
}

/// The cost of one of `ops` operations in tenths of a nanosecond, as a line
/// of the hash-table suite shows it; without an operation it is no number.
pub fn cost_column(stats: &Stats, ops: usize) -> (q: Quotient)
    ensures
        q == quotient_of(stats@.avg(), ops as nat, 10),
{
    if ops == 0 {
        quotient(stats.avg_ns(), 0, 10)
    } else {
        cost_quotient(stats.ns_per_op(ops), 10)
    }
}

/// Appends the text of a quotient with `decimals` decimals.
pub fn push_quotient(out: &mut String, q: Quotient, decimals: u32)
    requires
        decimals <= 38,
    ensures
        final(out)@ == old(out)@ + quotient_text(q, decimals as nat),
{
    match q {
        Quotient::Finite { scaled } => push_fixed(out, scaled, decimals),
        Quotient::Infinite => out.append("inf"),
        Quotient::Undefined => out.append("NaN"),
        Quotient::TooLarge => out.append("overflow"),
    }
}

/// Appends the text of a quotient with `decimals` decimals, at the right of
/// a column of `width` characters.
pub fn push_quotient_column(out: &mut String, q: Quotient, decimals: u32, width: usize)
    requires
        decimals <= 38,
    ensures
        final(out)@ == old(out)@ + right_aligned(quotient_text(q, decimals as nat), width as nat),
{
    let mut cell = String::new();
    push_quotient(&mut cell, q, decimals);
    assert(cell@ =~= quotient_text(q, decimals as nat));
    push_right_aligned(out, cell.as_str(), width);
}

/// How a candidate compares with a baseline.
#[derive(Clone, Copy, Debug, PartialEq, Eq, Structural)]
pub struct Comparison {
    /// The cost of the baseline divided by the cost of the candidate, in
    /// hundredths.
    pub speedup: Quotient,
    /// Whether that ratio is at least 1.
    pub faster: bool,
}

/// The comparison of two costs in the same unit.
pub open spec fn comparison_of(baseline: nat, candidate: nat) -> Comparison {
    Comparison {
        speedup: quotient_of(baseline, candidate, 100),
        faster: at_least_as_fast(baseline, candidate),
    }
}

/// The sign that the report shows before a speedup.
pub open spec fn indicator_of(faster: bool) -> char {
    if faster {
        '+'
    } else {
        '-'
    }
}

impl Comparison {
    /// `+` where the candidate is at least as fast as the baseline, `-`
    /// where it is slower.
    pub fn indicator(&self) -> (sign: char)
        ensures
            sign == indicator_of(self.faster),
    {
        if self.faster {
            '+'
        } else {
            '-'
        }
    }
}

/// Compares the cost of a candidate with the cost of a baseline, both in the
/// same unit: the speedup is `baseline / candidate`.
pub fn compare(baseline: u128, candidate: u128) -> (c: Comparison)
    ensures
        c == comparison_of(baseline as nat, candidate as nat),
{
    let faster = if candidate == 0 {
        baseline > 0
    } else {
        baseline >= candidate
    };
    Comparison { speedup: quotient(baseline, candidate, 100), faster }
}

/// The decimal text of a whole number, with a minus sign where it is
/// negative.
pub open spec fn signed_text(x: int) -> Seq<char> {
    if x < 0 {
        seq!['-'] + digits((-x) as nat)
    } else {
        digits(x as nat)
    }
}

/// Appends the decimal text of `x`.
pub fn push_signed(out: &mut String, x: i64)
    ensures
        final(out)@ == old(out)@ + signed_text(x as int),
{
    if x < 0 {
        out.push('-');
        let magnitude: u128 = if x == i64::MIN {
            9_223_372_036_854_775_808
        } else {
            (-x) as u128
        };
        push_digits(out, magnitude);
        assert(out@ =~= old(out)@ + signed_text(x as int));
    } else {
        push_digits(out, x as u128);
    }
}

/// `true` or `false`.
pub open spec fn bool_text(b: bool) -> Seq<char> {
    if b {
        "true"@
    } else {
        "false"@
    }
}

/// The cost of a fork-join of two closures that do no work.
pub struct JoinOverhead {
    /// The number of joins that were timed together.
    pub iterations: usize,
    /// The nanoseconds that all of them took.
    pub total_ns: u128,
    /// The sum of what the joins returned.
    pub count: i64,
}

/// The line of the join overhead: the time of one join in nanoseconds with
/// one decimal, and the sum of what the joins returned.
pub open spec fn join_line_text(total_ns: nat, iterations: nat, count: int) -> Seq<char> {
    "Empty join: "@ + quotient_text(quotient_of(total_ns, iterations, 10), 1) + "ns avg (total="@
        + signed_text(count).push(')')
}

impl JoinOverhead {
    /// The line of this result in the report.
    pub fn line(&self) -> (line: String)
        ensures
            line@ == join_line_text(
                self.total_ns as nat,
                self.iterations as nat,
                self.count as int,
            ),
    {
        let mut line = String::new();
        line.append("Empty join: ");
        push_quotient(&mut line, quotient(self.total_ns, self.iterations as u128, 10), 1);
        line.append("ns avg (total=");
        push_signed(&mut line, self.count);
        line.push(')');
        assert(line@ =~= join_line_text(
            self.total_ns as nat,
            self.iterations as nat,
            self.count as int,
        ));
        line
    }
}

/// The statistics of one named case at one input size, for the baseline and
/// for the candidate.
pub struct BenchmarkResult {
    /// The name that the report shows.
    pub name: &'static str,
    /// The input size.
    pub size: usize,
    /// The number of operations in one run, by which a run's time is divided.
    pub ops: usize,
    /// The statistics of the baseline backend.
    pub baseline: Stats,
    /// The statistics of the candidate backend.
    pub candidate: Stats,
}

/// The comparison of two averages of runs of `ops` operations: without an
/// operation neither cost is a number, and so the speedup is none.
pub open spec fn result_comparison(baseline_avg: nat, candidate_avg: nat, ops: nat) -> Comparison {
    if ops == 0 {
        Comparison { speedup: Quotient::Undefined, faster: false }
    } else {
        comparison_of(baseline_avg, candidate_avg)
    }
}

/// A line of the hash-table suite: the name, the cost of one operation on
/// the candidate and on the baseline in nanoseconds with one decimal, and
/// the speedup with its sign and two decimals.
pub open spec fn table_line_text(
    name: Seq<char>,
    candidate_avg: nat,
    baseline_avg: nat,
    ops: nat,
) -> Seq<char> {
    let c = result_comparison(baseline_avg, candidate_avg, ops);
    "  "@ + left_aligned(name, 14) + " hb    "@ + right_aligned(
        quotient_text(quotient_of(candidate_avg, ops, 10), 1),
        8,
    ) + "ns/op   std "@ + right_aligned(quotient_text(quotient_of(baseline_avg, ops, 10), 1), 8)
        + "ns/op   "@.push(indicator_of(c.faster)) + quotient_text(c.speedup, 2).push('x')
}

/// A line of the parallel suite: the name, the time of one run of the
/// baseline and of the candidate in milliseconds with three decimals, and
/// the speedup with its sign and two decimals.
pub open spec fn parallel_line_text(name: Seq<char>, baseline_avg: nat, candidate_avg: nat) -> Seq<
    char,
> {
    "  "@ + left_aligned(name.push(':'), 15) + "seq "@ + right_aligned(
        quotient_text(quotient_of(baseline_avg, 1_000_000, 1000), 3),
        8,
    ) + "ms   par "@ + right_aligned(
        quotient_text(quotient_of(candidate_avg, 1_000_000, 1000), 3),
        8,
    ) + "ms   "@.push(indicator_of(at_least_as_fast(baseline_avg, candidate_avg)))
        + quotient_text(quotient_of(baseline_avg, candidate_avg, 100), 2) + "x speedup"@
}

impl BenchmarkResult {
    /// Both backends have given `measured` samples, all of them clock
    /// samples.
    pub open spec fn complete(&self, measured: nat) -> bool {
        &&& self.baseline@.count == measured
        &&& self.candidate@.count == measured
        &&& in_protocol(self.baseline@)
        &&& in_protocol(self.candidate@)
    }

    /// The speedup of the candidate over the baseline: the ratio of the
    /// costs of one operation, which is the ratio of the averages.
    pub fn speedup(&self) -> (c: Comparison)
        ensures
            c == result_comparison(self.baseline@.avg(), self.candidate@.avg(), self.ops as nat),
    {
        if self.ops == 0 {
            Comparison { speedup: Quotient::Undefined, faster: false }
        } else {
            compare(self.baseline.avg_ns(), self.candidate.avg_ns())
        }
    }

    /// The line of this result in the report of the hash-table suite.
    pub fn table_line(&self) -> (line: String)
        ensures
            line@ == table_line_text(
                self.name@,
                self.candidate@.avg(),
                self.baseline@.avg(),
                self.ops as nat,
            ),
    {
        let c = self.speedup();
        let mut line = String::new();
        line.append("  ");
        push_left_aligned(&mut line, self.name, 14);
        line.append(" hb    ");
        let candidate_cost = cost_column(&self.candidate, self.ops);
        push_quotient_column(&mut line, candidate_cost, 1, 8);
        line.append("ns/op   std ");
        let baseline_cost = cost_column(&self.baseline, self.ops);
        push_quotient_column(&mut line, baseline_cost, 1, 8);
        line.append("ns/op   ");
        line.push(c.indicator());
        push_quotient(&mut line, c.speedup, 2);
        line.push('x');
        assert(line@ =~= table_line_text(
            self.name@,
            self.candidate@.avg(),
            self.baseline@.avg(),
            self.ops as nat,
        ));
        line
    }

    /// The line of this result in the report of the parallel suite.
    pub fn parallel_line(&self) -> (line: String)
        ensures
            line@ == parallel_line_text(self.name@, self.baseline@.avg(), self.candidate@.avg()),
    {
        let mut line = String::new();
        line.append("  ");
        let mut label = String::from_str(self.name);
        label.push(':');
        push_left_aligned(&mut line, label.as_str(), 15);
        line.append("seq ");
        push_quotient_column(&mut line, quotient(self.baseline.avg_ns(), 1_000_000, 1000), 3, 8);
        line.append("ms   par ");
        push_quotient_column(&mut line, quotient(self.candidate.avg_ns(), 1_000_000, 1000), 3, 8);
        line.append("ms   ");
        let c = compare(self.baseline.avg_ns(), self.candidate.avg_ns());
        line.push(c.indicator());
        push_quotient(&mut line, c.speedup, 2);
        line.append("x speedup");
        assert(line@ =~= parallel_line_text(
            self.name@,
            self.baseline@.avg(),
            self.candidate@.avg(),
        ));
        line
    }

    /// The line of the sort case in the report of the parallel suite: the
    /// line of the result, and whether the parallel sort left its input in
    /// ascending order.
    pub fn sort_line(&self, sorted: bool) -> (line: String)
        ensures
            line@ == parallel_line_text(self.name@, self.baseline@.avg(), self.candidate@.avg())
                + " (sorted="@ + bool_text(sorted).push(')'),
    {
        let mut line = self.parallel_line();
        line.append(" (sorted=");
        if sorted {
            line.append("true");
        } else {
            line.append("false");
        }
        line.push(')');
        assert(line@ =~= parallel_line_text(
            self.name@,
            self.baseline@.avg(),
            self.candidate@.avg(),
        ) + " (sorted="@ + bool_text(sorted).push(')'));
        line
    }
}

/// One case as it ran: its result, and beside it what the protocol logged
/// and what the units computed.
pub struct CaseRun<B, C> {
    /// The result that the report shows.
    pub result: BenchmarkResult,
    /// The sample of every run of the baseline in the order of the runs,
    /// those of the warmup runs first.
    pub baseline_samples: Vec<u128>,
    /// The same for the candidate.
    pub candidate_samples: Vec<u128>,
    /// What the last run of the baseline computed.
    pub baseline_output: B,
    /// What the last run of the candidate computed.
    pub candidate_output: C,
}

impl<B, C> CaseRun<B, C> {
    /// Each backend ran `warmup` warmup runs and `measured` measured runs,
    /// and the statistics of the result are those of the measured runs
    /// alone: the samples of the warmup runs do not enter.
    pub open spec fn follows_protocol(&self, warmup: nat, measured: nat) -> bool {
        &&& self.baseline_samples@.len() == warmup + measured
        &&& self.candidate_samples@.len() == warmup + measured
        &&& clock_samples(self.baseline_samples@)
        &&& clock_samples(self.candidate_samples@)
        &&& self.result.baseline@ == measured_summary(self.baseline_samples@, warmup)
        &&& self.result.candidate@ == measured_summary(self.candidate_samples@, warmup)
        &&& self.result.complete(measured)
    }

    /// Puts the traces of both backends together with the name, the input
    /// size and the number of operations of the case.
    pub fn new(
        name: &'static str,
        size: usize,
        ops: usize,
        baseline: Trace<B>,
        candidate: Trace<C>,
    ) -> (r: CaseRun<B, C>)
        requires
            baseline.last is Some,
            candidate.last is Some,
        ensures
            r.result.name == name,
            r.result.size == size,
            r.result.ops == ops,
            r.result.baseline == baseline.stats,
            r.result.candidate == candidate.stats,
            r.baseline_samples == baseline.samples,
            r.candidate_samples == candidate.samples,
            Some(r.baseline_output) == baseline.last,
            Some(r.candidate_output) == candidate.last,
    {
        let Trace { samples: baseline_samples, stats: baseline_stats, last: baseline_last } =
            baseline;
        let Trace { samples: candidate_samples, stats: candidate_stats, last: candidate_last } =
            candidate;
        CaseRun {
            result: BenchmarkResult {
                name,
                size,
                ops,
                baseline: baseline_stats,
                candidate: candidate_stats,
            },
            baseline_samples,
            candidate_samples,
            baseline_output: baseline_last.unwrap(),
            candidate_output: candidate_last.unwrap(),
        }
    }
}

} // verus!
