//! Conversion of successive cumulative counter readings into
//! instantaneous byte-per-second rates.

use vstd::prelude::*;

verus! {

/// One reading of an interface's cumulative counters, with the time it
/// was taken, in milliseconds of some monotone clock.
#[derive(Clone, Copy, PartialEq, Eq, Structural, Debug)]
pub struct CounterSnapshot {
    pub rx_bytes: u64,
    pub tx_bytes: u64,
    pub taken_at_ms: u64,
}

/// An instantaneous rate, in bytes per second, for each direction.
#[derive(Clone, Copy, PartialEq, Eq, Structural, Debug)]
pub struct RateSample {
    pub download_bps: u64,
    pub upload_bps: u64,
}

/// Saturating difference of two counters: a counter that went backwards
/// (reset or wraparound) counts as a delta of zero for that tick, never
/// as a negative or astronomically large value.
pub open spec fn spec_delta(prev: u64, cur: u64) -> u64 {
    if cur >= prev {
        (cur - prev) as u64
    } else {
        0u64
    }
}

/// The rate, in bytes per second, of `delta` bytes over `elapsed_ms`
/// milliseconds: the quotient `delta * 1000 / elapsed_ms`, rounded down
/// and capped at `u64::MAX`.
pub open spec fn spec_rate(delta: u64, elapsed_ms: u64) -> u64
    recommends
        elapsed_ms > 0,
{
    let q = delta * 1000 / elapsed_ms as int;
    if q > u64::MAX {
        u64::MAX
    } else {
        q as u64
    }
}

/// Bytes per second of `delta` bytes over `elapsed_ms` milliseconds,
/// rounded down and capped at `u64::MAX`.
pub fn rate_bps(delta: u64, elapsed_ms: u64) -> (r: u64)
    requires
        elapsed_ms > 0,
    ensures
        r == spec_rate(delta, elapsed_ms),
{
    let num: u128 = (delta as u128) * 1000;
    let q: u128 = num / (elapsed_ms as u128);
    if q > u64::MAX as u128 {
        u64::MAX
    } else {
        q as u64
    }
}

/// Converts successive counter readings plus elapsed time into rates,
/// retaining the previous reading between calls.
pub struct RateSampler {
    pub prev: CounterSnapshot,
}

impl RateSampler {
    /// A sampler whose first call will diff against `initial`.
    pub fn new(initial: CounterSnapshot) -> (s: Self)
        ensures
            s.prev == initial,
    {
        RateSampler { prev: initial }
    }

    /// One tick: the rate between the retained reading and `cur`.
    ///
    /// If less than one millisecond elapsed (clock-granularity guard,
    /// including a clock that went backwards), the tick yields a zero
    /// rate and the sampler is left unchanged. Otherwise both rates are
    /// the saturating counter delta over the elapsed time, and `cur`
    /// becomes the retained reading.
    pub fn sample(&mut self, cur: CounterSnapshot) -> (r: RateSample)
        ensures
            ({
                let elapsed = spec_delta(old(self).prev.taken_at_ms, cur.taken_at_ms);
                &&& elapsed == 0 ==> {
                    &&& r.download_bps == 0
                    &&& r.upload_bps == 0
                    &&& final(self).prev == old(self).prev
                }
                &&& elapsed > 0 ==> {
                    &&& r.download_bps == spec_rate(
                        spec_delta(old(self).prev.rx_bytes, cur.rx_bytes),
                        elapsed,
                    )
                    &&& r.upload_bps == spec_rate(
                        spec_delta(old(self).prev.tx_bytes, cur.tx_bytes),
                        elapsed,
                    )
                    &&& final(self).prev == cur
                }
            }),
    {
        let elapsed: u64 = cur.taken_at_ms.saturating_sub(self.prev.taken_at_ms);
        if elapsed == 0 {
            return RateSample { download_bps: 0, upload_bps: 0 };
        }
        let dl_delta: u64 = cur.rx_bytes.saturating_sub(self.prev.rx_bytes);
        let ul_delta: u64 = cur.tx_bytes.saturating_sub(self.prev.tx_bytes);
        let r = RateSample {
            download_bps: rate_bps(dl_delta, elapsed),
            upload_bps: rate_bps(ul_delta, elapsed),
        };
        self.prev = cur;
        r
    }
}

/// Law: when the counter moved forward, the delta for the tick is the
/// exact counter difference, and over a whole second the rate is that
/// difference itself, uncapped.
pub proof fn lemma_rate_forward(prev_rx: u64, cur_rx: u64, elapsed_ms: u64)
    requires
        prev_rx <= cur_rx,
        elapsed_ms > 0,
    ensures
        spec_delta(prev_rx, cur_rx) == cur_rx - prev_rx,
        spec_rate(spec_delta(prev_rx, cur_rx), elapsed_ms) == ({
            let q = (cur_rx - prev_rx) * 1000 / elapsed_ms as int;
            if q > u64::MAX {
                u64::MAX as int
            } else {
                q
            }
        }),
        elapsed_ms == 1000 ==> spec_rate(spec_delta(prev_rx, cur_rx), elapsed_ms) == cur_rx
            - prev_rx,
{
    let delta = spec_delta(prev_rx, cur_rx);
    if elapsed_ms == 1000 {
        assert(delta * 1000 / 1000int == delta);
    }
}

/// Law: when the counter went backwards (reset or wraparound), the
/// computed delta is clamped to zero, and the rate of the tick is zero,
/// never negative or astronomically large.
pub proof fn lemma_rate_wraparound(prev_rx: u64, cur_rx: u64, elapsed_ms: u64)
    requires
        cur_rx < prev_rx,
        elapsed_ms > 0,
    ensures
        spec_delta(prev_rx, cur_rx) == 0,
        spec_rate(spec_delta(prev_rx, cur_rx), elapsed_ms) == 0,
{
    assert(0int * 1000 / elapsed_ms as int == 0int);
}

} // verus!
