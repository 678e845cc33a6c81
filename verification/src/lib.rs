//! A running-average aggregator for integer samples arriving from a
//! publish/subscribe transport.
//!
//! The aggregator keeps a running sum and count of every sample handed to
//! [`RunningAverageAggregator::record`] and answers on-demand queries through
//! [`RunningAverageAggregator::average`], which divides the sum by the count
//! with truncating integer division. The sum and the count are always two
//! projections of one and the same history of recorded samples, so a query
//! can never see a sum that includes a sample whose count is still missing,
//! or the other way round.

use vstd::prelude::*;
use vstd::seq_lib::group_to_multiset_ensures;

verus! {

/// The sum of all values in a sequence of samples.
pub open spec fn sum_of(s: Seq<int>) -> int
    decreases s.len(),
{
    if s.len() == 0 {
        0
    } else {
        sum_of(s.drop_last()) + s.last()
    }
}

/// Integer division that rounds toward zero, as Rust's `/` on signed
/// integers does. (In specifications, `/` alone is Euclidean division,
/// which rounds toward negative infinity instead.)
pub open spec fn div_trunc(a: int, b: int) -> int
    recommends
        b > 0,
{
    if a >= 0 {
        a / b
    } else {
        -((-a) / b)
    }
}

/// The truncated average of a non-empty sequence of samples.
pub open spec fn average_of(s: Seq<int>) -> int
    recommends
        s.len() > 0,
{
    div_trunc(sum_of(s), s.len() as int)
}

/// Why an average query can fail.
#[derive(Clone, Copy, Debug, PartialEq, Eq)]
pub enum AggregateError {
    /// No sample has been recorded yet, so there is no average to report.
    NoSamples,
}

/// A thread-safe-by-construction accumulator of (sum, count): the two fields
/// are updated as a unit by `record`, which takes the aggregator exclusively,
/// and both are read from the same state by `average`. The view of an
/// aggregator is the sequence of samples recorded so far.
pub struct RunningAverageAggregator {
    sum: i64,
    count: u64,
    samples: Ghost<Seq<int>>,
}

impl View for RunningAverageAggregator {
    type V = Seq<int>;

    closed spec fn view(&self) -> Seq<int> {
        self.samples@
    }
}

impl RunningAverageAggregator {
    /// The running sum and count are exactly the sum and length of the one
    /// history of recorded samples.
    pub closed spec fn wf(&self) -> bool {
        &&& self.sum == sum_of(self.samples@)
        &&& self.count == self.samples@.len()
    }

    /// The running sum, as the aggregator stores it.
    pub closed spec fn spec_sum(&self) -> int {
        self.sum as int
    }

    /// The running count, as the aggregator stores it.
    pub closed spec fn spec_count(&self) -> nat {
        self.count as nat
    }

    /// A fresh aggregator with no samples recorded.
    pub fn new() -> (r: Self)
        ensures
            r.wf(),
            r@ == Seq::<int>::empty(),
    {
        RunningAverageAggregator { sum: 0, count: 0, samples: Ghost(Seq::empty()) }
    }

    /// Ingest one sample: the sum grows by its value and the count by one,
    /// in a single exclusive update.
    pub fn record(&mut self, value: i64)
        requires
            old(self).wf(),
            i64::MIN <= sum_of(old(self)@) + value <= i64::MAX,
            old(self)@.len() < u64::MAX,
        ensures
            final(self).wf(),
            final(self)@ == old(self)@.push(value as int),
    {
        proof {
            lemma_sum_of_push(self.samples@, value as int);
        }
        self.sum = self.sum + value;
        self.count = self.count + 1;
        self.samples = Ghost(self.samples@.push(value as int));
    }

    /// The truncated average of all recorded samples, or `NoSamples` when
    /// nothing has been recorded yet.
    pub fn average(&self) -> (r: Result<i64, AggregateError>)
        requires
            self.wf(),
        ensures
            self@.len() == 0 ==> r == Err::<i64, AggregateError>(AggregateError::NoSamples),
            self@.len() > 0 ==> r == Ok::<i64, AggregateError>(average_of(self@) as i64),
            self@.len() > 0 ==> i64::MIN <= average_of(self@) <= i64::MAX,
    {
        proof {
            if self.samples@.len() > 0 {
                lemma_div_trunc_bounds(self.sum as int, self.samples@.len() as int);
            }
        }
        if self.count == 0 {
            Err(AggregateError::NoSamples)
        } else if self.count <= i64::MAX as u64 {
            let c: i64 = self.count as i64;
            let q: i64 = self.sum / c;
            assert(q == div_trunc(self.spec_sum(), c as int));
            Ok(q)
        } else if self.sum == i64::MIN && self.count == 0x8000_0000_0000_0000u64 {
            // The one case where a count beyond i64::MAX still divides the
            // sum: the sum is exactly the negated count.
            proof {
                vstd::arithmetic::div_mod::lemma_div_by_self(self.count as int);
            }
            Ok(-1)
        } else {
            // More samples than any i64 sum could keep up with: the sum's
            // magnitude is below the count, so the truncated quotient is zero.
            Ok(0)
        }
    }

    /// The running sum of all recorded samples.
    pub fn sum(&self) -> (r: i64)
        requires
            self.wf(),
        ensures
            r == sum_of(self@),
    {
        self.sum
    }

    /// The number of samples recorded so far.
    pub fn count(&self) -> (r: u64)
        requires
            self.wf(),
        ensures
            r == self@.len(),
    {
        self.count
    }
}

/// The sum and the length of a history of samples depend only on the
/// multiset of values in it, not on the order in which they were recorded:
/// concurrent recorders racing to append produce the same totals whatever
/// the interleaving.
pub proof fn lemma_sum_order_independent(s1: Seq<int>, s2: Seq<int>)
    requires
        s1.to_multiset() == s2.to_multiset(),
    ensures
        sum_of(s1) == sum_of(s2),
        s1.len() == s2.len(),
    decreases s1.len(),
{
    broadcast use group_to_multiset_ensures;

    if s1.len() == 0 {
        assert(s2.to_multiset().len() == 0);
    } else {
        let i = s1.len() - 1;
        let v = s1[i];
        assert(s1.contains(v));
        assert(s2.to_multiset().count(v) > 0);
        assert(s2.contains(v));
        let j = choose|j: int| 0 <= j < s2.len() && s2[j] == v;
        assert(s1.remove(i).to_multiset() == s1.to_multiset().remove(v));
        assert(s2.remove(j).to_multiset() == s2.to_multiset().remove(v));
        lemma_sum_order_independent(s1.remove(i), s2.remove(j));
        lemma_sum_of_remove(s1, i);
        lemma_sum_of_remove(s2, j);
    }
}

/// Two aggregators that recorded the same multiset of samples, in whatever
/// order each saw them, hold the same running sum and the same count.
pub proof fn lemma_aggregate_order_independent(
    a1: &RunningAverageAggregator,
    a2: &RunningAverageAggregator,
)
    requires
        a1.wf(),
        a2.wf(),
        a1@.to_multiset() == a2@.to_multiset(),
    ensures
        a1.spec_sum() == a2.spec_sum(),
        a1.spec_count() == a2.spec_count(),
{
    lemma_sum_order_independent(a1@, a2@);
}

/// An aggregator's sum and count can never be observed out of step: both
/// are projections of the single history of recorded samples, so any sum
/// that includes a sample comes with a count that includes it too.
pub proof fn lemma_snapshot_consistent(a: &RunningAverageAggregator)
    requires
        a.wf(),
    ensures
        a.spec_sum() == sum_of(a@),
        a.spec_count() == a@.len(),
{
}

/// Removing one sample from a history subtracts its value from the sum.
proof fn lemma_sum_of_remove(s: Seq<int>, i: int)
    requires
        0 <= i < s.len(),
    ensures
        sum_of(s.remove(i)) == sum_of(s) - s[i],
    decreases s.len(),
{
    if i == s.len() - 1 {
        assert(s.remove(i) =~= s.drop_last());
    } else {
        assert(s.remove(i).drop_last() =~= s.drop_last().remove(i));
        assert(s.remove(i).last() == s.last());
        lemma_sum_of_remove(s.drop_last(), i);
    }
}

/// Pushing a sample onto a history adds its value to the history's sum.
proof fn lemma_sum_of_push(s: Seq<int>, v: int)
    ensures
        sum_of(s.push(v)) == sum_of(s) + v,
{
    assert(s.push(v).drop_last() =~= s);
}

/// For a positive divisor, the magnitude of the truncated quotient never
/// exceeds the magnitude of the dividend.
proof fn lemma_div_trunc_bounds(a: int, b: int)
    requires
        b > 0,
    ensures
        a >= 0 ==> 0 <= div_trunc(a, b) <= a,
        a < 0 ==> a <= div_trunc(a, b) <= 0,
        -b < a < b ==> div_trunc(a, b) == 0,
{
    if a >= 0 {
        vstd::arithmetic::div_mod::lemma_div_pos_is_pos(a, b);
        vstd::arithmetic::div_mod::lemma_div_nonincreasing(a, b);
        if a < b {
            vstd::arithmetic::div_mod::lemma_basic_div(a, b);
        }
    } else {
        vstd::arithmetic::div_mod::lemma_div_pos_is_pos(-a, b);
        vstd::arithmetic::div_mod::lemma_div_nonincreasing(-a, b);
        if -a < b {
            vstd::arithmetic::div_mod::lemma_basic_div(-a, b);
        }
    }
}

} // verus!

