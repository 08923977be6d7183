//! Running statistics over every rate sample seen since session start:
//! peak, minimum, mean and sample standard deviation. Independent of the
//! bounded history window, which only feeds the chart.

use vstd::prelude::*;

verus! {

/// Sum of a sequence of samples.
pub open spec fn seq_sum(s: Seq<u64>) -> int
    decreases s.len(),
{
    if s.len() == 0 {
        0
    } else {
        seq_sum(s.drop_last()) + s.last()
    }
}

/// Sum of the squares of a sequence of samples.
pub open spec fn seq_sum_sq(s: Seq<u64>) -> int
    decreases s.len(),
{
    if s.len() == 0 {
        0
    } else {
        seq_sum_sq(s.drop_last()) + s.last() * s.last()
    }
}

/// Running maximum of a sequence of samples, zero for the empty one.
pub open spec fn seq_peak(s: Seq<u64>) -> u64
    decreases s.len(),
{
    if s.len() == 0 {
        0u64
    } else if s.last() > seq_peak(s.drop_last()) {
        s.last()
    } else {
        seq_peak(s.drop_last())
    }
}

/// Running minimum of a sequence of samples, `u64::MAX` for the empty
/// one.
pub open spec fn seq_low(s: Seq<u64>) -> u64
    decreases s.len(),
{
    if s.len() == 0 {
        u64::MAX
    } else if s.last() < seq_low(s.drop_last()) {
        s.last()
    } else {
        seq_low(s.drop_last())
    }
}

/// The mean of the samples, rounded down; zero when none were observed.
pub open spec fn spec_mean(s: Seq<u64>) -> int {
    if s.len() == 0 {
        0
    } else {
        seq_sum(s) / s.len() as int
    }
}

/// Sample variance of the samples, rounded down:
/// `(n * sum_sq - sum^2) / (n * (n - 1))`; zero when fewer than two
/// samples were observed. The numerator is never negative
/// (`lemma_variance_numerator_nonneg`).
pub open spec fn spec_variance(s: Seq<u64>) -> int {
    let n = s.len() as int;
    if n < 2 {
        0
    } else {
        (n * seq_sum_sq(s) - seq_sum(s) * seq_sum(s)) / (n * (n - 1))
    }
}

/// The square root of `v`, rounded down.
pub open spec fn spec_isqrt(v: int) -> int
    recommends
        v >= 0,
{
    choose|r: int| #![trigger r * r] r >= 0 && r * r <= v < (r + 1) * (r + 1)
}

/// Whether the standard-deviation intermediates of `s` fit the machine
/// words they are computed in.
pub open spec fn variance_fits(s: Seq<u64>) -> bool {
    &&& seq_sum_sq(s) <= u128::MAX
    &&& s.len() * seq_sum_sq(s) <= u128::MAX
    &&& seq_sum(s) * seq_sum(s) <= u128::MAX
}

/// The sum of `n` samples is at most `n * u64::MAX`, and neither sum
/// is negative.
pub proof fn lemma_seq_sum_bounds(s: Seq<u64>)
    ensures
        0 <= seq_sum(s) <= s.len() * u64::MAX,
        0 <= seq_sum_sq(s),
    decreases s.len(),
{
    if s.len() > 0 {
        lemma_seq_sum_bounds(s.drop_last());
    }
}

/// The variance numerator `n * sum_sq - sum^2` is never negative: the
/// square of a sum of `n` values never exceeds `n` times the sum of
/// their squares.
pub proof fn lemma_variance_numerator_nonneg(s: Seq<u64>)
    ensures
        s.len() * seq_sum_sq(s) >= seq_sum(s) * seq_sum(s),
    decreases s.len(),
{
    if s.len() > 0 {
        let t = s.drop_last();
        let x = s.last() as int;
        lemma_variance_numerator_nonneg(t);
        lemma_seq_sum_bounds(t);
        let n = t.len() as int;
        let sm = seq_sum(t);
        let q = seq_sum_sq(t);
        assert((n + 1) * (q + x * x) >= (sm + x) * (sm + x)) by (nonlinear_arith)
            requires
                sm * sm <= n * q,
                n >= 0,
                q >= 0,
                x >= 0,
                sm >= 0,
        ;
    }
}

/// Law: the peak is monotonically non-decreasing as samples arrive, and
/// never below any sample observed so far.
pub proof fn lemma_peak_monotone(s: Seq<u64>, v: u64)
    ensures
        seq_peak(s.push(v)) >= seq_peak(s),
        seq_peak(s.push(v)) >= v,
{
    assert(s.push(v).drop_last() =~= s);
}

/// Running peak, minimum, mean and standard deviation over all samples
/// observed since construction. The full sample sequence is retained
/// only in ghost form; the tracker itself is constant-size.
pub struct StatisticsTracker {
    count: u64,
    sum: u128,
    sum_sq: u128,
    sum_sq_fits: bool,
    peak: u64,
    low: u64,
    observed: Ghost<Seq<u64>>,
}

impl StatisticsTracker {
    /// Every sample observed so far, in arrival order.
    pub closed spec fn view(&self) -> Seq<u64> {
        self.observed@
    }

    /// The scalar fields agree with the observation sequence.
    pub closed spec fn wf(&self) -> bool {
        &&& self.count == self.view().len()
        &&& self.sum == seq_sum(self.view())
        &&& self.sum_sq_fits <==> seq_sum_sq(self.view()) <= u128::MAX
        &&& self.sum_sq_fits ==> self.sum_sq == seq_sum_sq(self.view())
        &&& self.peak == seq_peak(self.view())
        &&& self.low == seq_low(self.view())
    }

    /// A tracker that has observed nothing.
    pub fn new() -> (t: Self)
        ensures
            t.wf(),
            t.view() == Seq::<u64>::empty(),
    {
        StatisticsTracker {
            count: 0,
            sum: 0,
            sum_sq: 0,
            sum_sq_fits: true,
            peak: 0,
            low: u64::MAX,
            observed: Ghost(Seq::empty()),
        }
    }

    /// Records one sample. The observation count never shrinks.
    pub fn observe(&mut self, value: u64)
        requires
            old(self).wf(),
            old(self).view().len() < u64::MAX,
        ensures
            final(self).wf(),
            final(self).view() == old(self).view().push(value),
    {
        proof {
            assert(self.view().push(value).drop_last() =~= self.view());
            lemma_seq_sum_bounds(self.view());
            assert(self.sum + value <= (self.count + 1) * u64::MAX);
            assert((self.count + 1) * u64::MAX < u128::MAX) by (nonlinear_arith)
                requires
                    self.count < u64::MAX,
            ;
        }
        self.count = self.count + 1;
        self.sum = self.sum + (value as u128);
        if self.sum_sq_fits {
            proof {
                assert((value as u128) as int * (value as u128) as int <= u64::MAX * u64::MAX)
                    by (nonlinear_arith)
                    requires
                        value <= u64::MAX,
                ;
            }
            let vv: u128 = (value as u128) * (value as u128);
            match self.sum_sq.checked_add(vv) {
                Some(nsq) => {
                    self.sum_sq = nsq;
                },
                None => {
                    self.sum_sq_fits = false;
                },
            }
        }
        if value > self.peak {
            self.peak = value;
        }
        if value < self.low {
            self.low = value;
        }
        self.observed = Ghost(self.observed@.push(value));
    }

    /// How many samples were observed.
    pub fn sample_count(&self) -> (n: u64)
        requires
            self.wf(),
        ensures
            n == self.view().len(),
    {
        self.count
    }

    /// The running maximum over all samples; zero before the first one.
    pub fn peak(&self) -> (p: u64)
        requires
            self.wf(),
        ensures
            p == seq_peak(self.view()),
    {
        self.peak
    }

    /// The running minimum over all samples; `u64::MAX` before the
    /// first one.
    pub fn minimum(&self) -> (m: u64)
        requires
            self.wf(),
        ensures
            m == seq_low(self.view()),
    {
        self.low
    }

    /// The mean over all samples, rounded down; zero before the first
    /// one.
    pub fn mean(&self) -> (m: u64)
        requires
            self.wf(),
        ensures
            m == spec_mean(self.view()),
    {
        if self.count == 0 {
            0
        } else {
            proof {
                lemma_seq_sum_bounds(self.view());
                assert(seq_sum(self.view()) / self.view().len() as int <= u64::MAX)
                    by (nonlinear_arith)
                    requires
                        0 <= seq_sum(self.view()) <= self.view().len() * u64::MAX,
                        self.view().len() >= 1,
                ;
            }
            (self.sum / (self.count as u128)) as u64
        }
    }

    /// The sample standard deviation over all samples, rounded down:
    /// zero for fewer than two samples, `u64::MAX` where an intermediate
    /// no longer fits a 128-bit word.
    pub fn stddev(&self) -> (d: u64)
        requires
            self.wf(),
        ensures
            self.view().len() < 2 ==> d == 0,
            self.view().len() >= 2 && variance_fits(self.view()) ==> d == spec_isqrt(
                spec_variance(self.view()),
            ),
            self.view().len() >= 2 && !variance_fits(self.view()) ==> d == u64::MAX,
    {
        if self.count < 2 {
            return 0;
        }
        if !self.sum_sq_fits {
            return u64::MAX;
        }
        let n: u128 = self.count as u128;
        let nssq: u128 = match n.checked_mul(self.sum_sq) {
            Some(x) => x,
            None => {
                return u64::MAX;
            },
        };
        let ss: u128 = match self.sum.checked_mul(self.sum) {
            Some(x) => x,
            None => {
                return u64::MAX;
            },
        };
        proof {
            lemma_variance_numerator_nonneg(self.view());
        }
        let num: u128 = nssq - ss;
        proof {
            assert(2 <= n * (n - 1) <= u128::MAX) by (nonlinear_arith)
                requires
                    2 <= n <= u64::MAX,
            ;
        }
        let den: u128 = n * (n - 1);
        let var: u128 = num / den;
        isqrt(var)
    }
}

/// The square root of `v`, rounded down, by bisection.
pub fn isqrt(v: u128) -> (r: u64)
    ensures
        r * r <= v < (r + 1) * (r + 1),
        r == spec_isqrt(v as int),
{
    let mut lo: u64 = 0;
    let mut hi: u64 = u64::MAX;
    proof {
        assert((u64::MAX + 1) * (u64::MAX + 1) > u128::MAX) by (nonlinear_arith);
    }
    while lo < hi
        invariant
            lo <= hi,
            lo * lo <= v,
            (hi + 1) * (hi + 1) > v,
        decreases hi - lo,
    {
        let mid: u64 = hi - (hi - lo) / 2;
        proof {
            assert(mid as int * mid as int <= u64::MAX * u64::MAX) by (nonlinear_arith)
                requires
                    mid <= u64::MAX,
            ;
        }
        if (mid as u128) * (mid as u128) <= v {
            lo = mid;
        } else {
            hi = mid - 1;
        }
    }
    proof {
        let r = lo as int;
        assert(r >= 0 && r * r <= v < (r + 1) * (r + 1));
        let c = spec_isqrt(v as int);
        assert(c >= 0 && c * c <= v < (c + 1) * (c + 1));
        assert(c == r) by (nonlinear_arith)
            requires
                r >= 0 && r * r <= v < (r + 1) * (r + 1),
                c >= 0 && c * c <= v < (c + 1) * (c + 1),
        ;
    }
    lo
}

} // verus!
