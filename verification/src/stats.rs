//! Running statistics over elapsed-time samples: minimum, maximum, total and
//! count, with the average and the cost per operation derived from them.

use vstd::prelude::*;

verus! {

/// The cost of one operation in nanoseconds, exactly: the fraction
/// `whole + rest / ops`, with `rest` below `ops`. One sample of 1000 over
/// 2000 operations costs `0 + 1000 / 2000`, half a nanosecond.
#[derive(Clone, Copy, Debug, PartialEq, Eq, Structural)]
pub struct PerOp {
    /// The whole nanoseconds.
    pub whole: u128,
    /// The numerator of the fraction of a nanosecond beyond them.
    pub rest: u128,
    /// The number of operations, the denominator of that fraction.
    pub ops: usize,
}

impl PerOp {
    /// The cost times the number of operations.
    pub open spec fn times_ops(self) -> nat {
        (self.whole * self.ops + self.rest) as nat
    }
}

/// What a `Stats` value stands for: the reduction of a sequence of samples.
pub struct Summary {
    /// The smallest sample, or `u128::MAX` while no sample has been taken.
    pub min: nat,
    /// The largest sample, or 0 while no sample has been taken.
    pub max: nat,
    /// The sum of the samples.
    pub total: nat,
    /// The number of samples.
    pub count: nat,
}

/// The smaller of two numbers.
pub open spec fn smaller(a: nat, b: nat) -> nat {
    if a <= b {
        a
    } else {
        b
    }
}

/// The larger of two numbers.
pub open spec fn larger(a: nat, b: nat) -> nat {
    if a >= b {
        a
    } else {
        b
    }
}

impl Summary {
    /// The summary of no samples at all.
    pub open spec fn empty() -> Summary {
        Summary { min: u128::MAX as nat, max: 0, total: 0, count: 0 }
    }

    /// The summary after one more sample.
    pub open spec fn push(self, sample: nat) -> Summary {
        Summary {
            min: smaller(self.min, sample),
            max: larger(self.max, sample),
            total: self.total + sample,
            count: self.count + 1,
        }
    }

    /// The summary of two runs taken together.
    pub open spec fn merge(self, other: Summary) -> Summary {
        Summary {
            min: smaller(self.min, other.min),
            max: larger(self.max, other.max),
            total: self.total + other.total,
            count: self.count + other.count,
        }
    }

    /// The summary of a whole sequence of samples, taken in order.
    pub open spec fn of(samples: Seq<u128>) -> Summary
        decreases samples.len(),
    {
        if samples.len() == 0 {
            Summary::empty()
        } else {
            Summary::of(samples.drop_last()).push(samples.last() as nat)
        }
    }

    /// The average sample, rounded down; 0 where there is no sample.
    pub open spec fn avg(self) -> nat {
        if self.count > 0 {
            self.total / self.count
        } else {
            0
        }
    }

    /// The average cost of one of `ops` operations, exactly: the whole
    /// nanoseconds, and what is left of the average to be divided.
    pub open spec fn per_op(self, ops: nat) -> PerOp {
        PerOp {
            whole: (self.avg() / ops) as u128,
            rest: (self.avg() % ops) as u128,
            ops: ops as usize,
        }
    }

    /// What holds of every summary that samples of 128 bits can produce.
    pub open spec fn wf(self) -> bool {
        if self.count == 0 {
            self == Summary::empty()
        } else {
            &&& self.min <= self.max <= u128::MAX
            &&& self.count * self.min <= self.total <= self.count * self.max
        }
    }
}

/// The running statistics of one benchmark case on one backend.
pub struct Stats {
    min_ns: u128,
    max_ns: u128,
    total_ns: u128,
    count: usize,
}

impl View for Stats {
    type V = Summary;

    closed spec fn view(&self) -> Summary {
        Summary {
            min: self.min_ns as nat,
            max: self.max_ns as nat,
            total: self.total_ns as nat,
            count: self.count as nat,
        }
    }
}

/// One more sample leaves a summary well formed.
pub proof fn lemma_push_keeps_wf(s: Summary, sample: nat)
    requires
        s.wf(),
        sample <= u128::MAX,
    ensures
        s.push(sample).wf(),
{
    let t = s.push(sample);
    if s.count > 0 {
        assert(s.count * t.min <= s.count * s.min) by (nonlinear_arith)
            requires
                t.min <= s.min,
        ;
        assert(s.count * s.max <= s.count * t.max) by (nonlinear_arith)
            requires
                s.max <= t.max,
        ;
        assert(t.count * t.min == s.count * t.min + t.min) by (nonlinear_arith)
            requires
                t.count == s.count + 1,
        ;
        assert(t.count * t.max == s.count * t.max + t.max) by (nonlinear_arith)
            requires
                t.count == s.count + 1,
        ;
    } else {
        assert(t.count * t.min == t.min) by (nonlinear_arith)
            requires
                t.count == 1,
        ;
        assert(t.count * t.max == t.max) by (nonlinear_arith)
            requires
                t.count == 1,
        ;
    }
}

/// The merge of two well-formed summaries is well formed.
pub proof fn lemma_merge_keeps_wf(a: Summary, b: Summary)
    requires
        a.wf(),
        b.wf(),
    ensures
        a.merge(b).wf(),
{
    let m = a.merge(b);
    if a.count > 0 && b.count > 0 {
        assert(m.count * m.min <= a.count * a.min + b.count * b.min) by (nonlinear_arith)
            requires
                m.count == a.count + b.count,
                m.min <= a.min,
                m.min <= b.min,
        ;
        assert(a.count * a.max + b.count * b.max <= m.count * m.max) by (nonlinear_arith)
            requires
                m.count == a.count + b.count,
                a.max <= m.max,
                b.max <= m.max,
        ;
    } else if a.count > 0 {
        assert(m == a);
    } else if b.count > 0 {
        assert(m == b);
    }
}

/// Where there is a sample, the average lies between the minimum and the
/// maximum.
pub proof fn lemma_avg_between_min_and_max(s: Summary)
    requires
        s.wf(),
        s.count > 0,
    ensures
        s.min <= s.avg() <= s.max,
{
    assert(s.min <= s.total / s.count) by (nonlinear_arith)
        requires
            s.count > 0,
            s.count * s.min <= s.total,
    ;
    assert(s.total / s.count <= s.max) by (nonlinear_arith)
        requires
            s.count > 0,
            s.total <= s.count * s.max,
    ;
}

/// The summary of any sequence of samples is well formed, and counts them.
pub proof fn lemma_summary_of_samples(samples: Seq<u128>)
    ensures
        Summary::of(samples).wf(),
        Summary::of(samples).count == samples.len(),
    decreases samples.len(),
{
    if samples.len() > 0 {
        lemma_summary_of_samples(samples.drop_last());
        lemma_push_keeps_wf(Summary::of(samples.drop_last()), samples.last() as nat);
    }
}

/// For every sequence of samples that is not empty, the average lies
/// between the minimum and the maximum.
pub proof fn law_avg_between_min_and_max(samples: Seq<u128>)
    requires
        samples.len() > 0,
    ensures
        Summary::of(samples).min <= Summary::of(samples).avg() <= Summary::of(samples).max,
{
    lemma_summary_of_samples(samples);
    lemma_avg_between_min_and_max(Summary::of(samples));
}

/// Merging is commutative.
pub proof fn law_merge_commutative(a: Summary, b: Summary)
    ensures
        a.merge(b) == b.merge(a),
{
}

/// Merging is associative.
pub proof fn law_merge_associative(a: Summary, b: Summary, c: Summary)
    ensures
        a.merge(b).merge(c) == a.merge(b.merge(c)),
{
}

/// The summary of no samples is the neutral element of merging.
pub proof fn law_merge_with_empty(a: Summary)
    requires
        a.wf(),
    ensures
        a.merge(Summary::empty()) == a,
        Summary::empty().merge(a) == a,
{
}

/// Taking one more sample is merging with the summary of that sample alone.
pub proof fn law_push_is_merge(a: Summary, sample: u128)
    requires
        a.wf(),
    ensures
        a.push(sample as nat) == a.merge(Summary::of(seq![sample])),
{
    assert(seq![sample].drop_last() =~= Seq::<u128>::empty());
    assert(Summary::of(seq![sample].drop_last()) == Summary::empty());
    assert(Summary::of(seq![sample]) == Summary::empty().push(sample as nat));
}

/// The summary of two runs, one after the other, is the merge of their
/// summaries: a run may be split anywhere, summarised in parts, and merged.
pub proof fn law_merge_of_parts(first: Seq<u128>, second: Seq<u128>)
    ensures
        Summary::of(first + second) == Summary::of(first).merge(Summary::of(second)),
    decreases second.len(),
{
    lemma_summary_of_samples(first);
    if second.len() == 0 {
        assert(first + second =~= first);
    } else {
        law_merge_of_parts(first, second.drop_last());
        assert((first + second).drop_last() =~= first + second.drop_last());
        assert((first + second).last() == second.last());
    }
}

/// The order of the samples does not matter: two sequences with the same
/// samples, each as often in the one as in the other, have one summary.
pub proof fn law_order_does_not_matter(a: Seq<u128>, b: Seq<u128>)
    requires
        a.to_multiset() == b.to_multiset(),
    ensures
        Summary::of(a) == Summary::of(b),
    decreases a.len(),
{
    broadcast use vstd::seq_lib::group_to_multiset_ensures;

    a.to_multiset_ensures();
    b.to_multiset_ensures();
    if a.len() == 0 {
        assert(b.len() == 0);
        assert(a =~= b);
    } else {
        let x = a.last();
        assert(a =~= a.drop_last().push(x));
        assert(a.to_multiset().count(x) > 0);
        assert(b.contains(x));
        let i = choose|i: int| 0 <= i < b.len() && b[i] == x;
        let rest = b.remove(i);
        assert(a.drop_last().to_multiset() =~= a.to_multiset().remove(x)) by {
            a.drop_last().to_multiset_ensures();
        }
        assert(rest.to_multiset() =~= b.to_multiset().remove(x)) by {
            b.to_multiset_ensures();
        }
        law_order_does_not_matter(a.drop_last(), rest);
        lemma_remove_then_push(b, i);
    }
}

/// Taking a sample out of a sequence and in again at the end leaves the
/// summary as it was.
proof fn lemma_remove_then_push(s: Seq<u128>, i: int)
    requires
        0 <= i < s.len(),
    ensures
        Summary::of(s) == Summary::of(s.remove(i)).push(s[i] as nat),
    decreases s.len(),
{
    if i == s.len() - 1 {
        assert(s.remove(i) =~= s.drop_last());
    } else {
        lemma_remove_then_push(s.drop_last(), i);
        assert(s.remove(i).drop_last() =~= s.drop_last().remove(i));
        assert(s.remove(i).last() == s.last());
    }
}

/// The cost of one operation, times the number of operations, is the
/// average: nothing is rounded away.
pub proof fn law_per_op_times_ops(s: Summary, ops: nat)
    requires
        s.wf(),
        0 < ops <= usize::MAX,
    ensures
        s.per_op(ops).times_ops() == s.avg(),
        s.per_op(ops).rest < ops,
        s.per_op(ops).ops == ops,
{
    let avg = s.avg();
    if s.count > 0 {
        lemma_avg_between_min_and_max(s);
    }
    assert(avg <= u128::MAX);
    assert((avg / ops) * ops + avg % ops == avg && 0 <= avg % ops < ops && 0 <= avg / ops <= avg)
        by (nonlinear_arith)
        requires
            ops > 0,
            avg >= 0,
    ;
}

impl Stats {
    #[verifier::type_invariant]
    spec fn well_formed(&self) -> bool {
        self@.wf()
    }

    /// Statistics over no samples: the minimum at its sentinel `u128::MAX`,
    /// everything else 0.
    pub fn new() -> (s: Stats)
        ensures
            s@ == Summary::empty(),
    {
        Stats { min_ns: u128::MAX, max_ns: 0, total_ns: 0, count: 0 }
    }

    /// Takes one more sample in. Afterwards there is a sample, and the new
    /// one lies between the minimum and the maximum, as the average does.
    pub fn add(&mut self, ns: u128)
        requires
            old(self)@.total + ns <= u128::MAX,
            old(self)@.count < usize::MAX,
        ensures
            final(self)@ == old(self)@.push(ns as nat),
            final(self)@.wf(),
            final(self)@.count > 0,
            final(self)@.min <= ns <= final(self)@.max,
            final(self)@.min <= final(self)@.avg() <= final(self)@.max,
    {
        proof {
            use_type_invariant(&*self);
            lemma_push_keeps_wf(self@, ns as nat);
            lemma_avg_between_min_and_max(self@.push(ns as nat));
        }
        let min_ns: u128 = if ns < self.min_ns { ns } else { self.min_ns };
        let max_ns: u128 = if ns > self.max_ns { ns } else { self.max_ns };
        *self = Stats {
            min_ns,
            max_ns,
            total_ns: self.total_ns + ns,
            count: self.count + 1,
        };
    }

    /// The average sample in nanoseconds, rounded down; 0 where no sample
    /// has been taken.
    pub fn avg_ns(&self) -> (avg: u128)
        ensures
            avg == self@.avg(),
            self@.count > 0 ==> self@.min <= avg <= self@.max,
    {
        proof {
            use_type_invariant(self);
            if self@.count > 0 {
                lemma_avg_between_min_and_max(self@);
            }
        }
        if self.count > 0 {
            self.total_ns / self.count as u128
        } else {
            0
        }
    }

    /// The average cost of one of `ops` operations in nanoseconds, exactly:
    /// the cost times `ops` is the average.
    pub fn ns_per_op(&self, ops: usize) -> (cost: PerOp)
        requires
            ops > 0,
        ensures
            cost == self@.per_op(ops as nat),
            cost.times_ops() == self@.avg(),
            cost.times_ops() <= u128::MAX,
            cost.rest < ops,
            cost.ops == ops,
    {
        proof {
            use_type_invariant(self);
            law_per_op_times_ops(self@, ops as nat);
        }
        let avg = self.avg_ns();
        PerOp { whole: avg / ops as u128, rest: avg % ops as u128, ops }
    }

    /// The statistics of this run and of `other` taken together: the smaller
    /// minimum, the larger maximum, both totals and both counts.
    pub fn merge(&self, other: &Stats) -> (both: Stats)
        requires
            self@.total + other@.total <= u128::MAX,
            self@.count + other@.count <= usize::MAX,
        ensures
            both@ == self@.merge(other@),
    {
        proof {
            use_type_invariant(self);
            use_type_invariant(other);
            lemma_merge_keeps_wf(self@, other@);
        }
        Stats {
            min_ns: if self.min_ns <= other.min_ns { self.min_ns } else { other.min_ns },
            max_ns: if self.max_ns >= other.max_ns { self.max_ns } else { other.max_ns },
            total_ns: self.total_ns + other.total_ns,
            count: self.count + other.count,
        }
    }

    /// The smallest sample, or `u128::MAX` where no sample has been taken.
    pub fn min_ns(&self) -> (min: u128)
        ensures
            min == self@.min,
    {
        self.min_ns
    }

    /// The largest sample, or 0 where no sample has been taken.
    pub fn max_ns(&self) -> (max: u128)
        ensures
            max == self@.max,
    {
        self.max_ns
    }

    /// The sum of the samples.
    pub fn total_ns(&self) -> (total: u128)
        ensures
            total == self@.total,
    {
        self.total_ns
    }

    /// The number of samples.
    pub fn count(&self) -> (count: usize)
        ensures
            count == self@.count,
    {
        self.count
    }
}

} // verus!
