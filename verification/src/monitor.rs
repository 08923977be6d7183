//! The per-interface monitoring session: one sampler, one bounded
//! history window per direction for the chart, and one unbounded
//! statistics tracker per direction, all advanced together by one
//! update per tick.

use vstd::prelude::*;

use crate::history::{spec_push, HistoryBuffer};
use crate::resolver::{lists_available, InterfaceInfo, NotFound};
use crate::sampler::{spec_delta, spec_rate, CounterSnapshot, RateSampler};
use crate::stats::StatisticsTracker;
use crate::text::{eq_chars, to_chars};

verus! {

/// What one tick reports: the rates of the tick and the cumulative
/// counters it ended on.
#[derive(Clone, Copy, PartialEq, Eq, Structural, Debug)]
pub struct BandwidthStats {
    pub download_bps: u64,
    pub upload_bps: u64,
    pub total_rx: u64,
    pub total_tx: u64,
}

/// Index `i` holds the first interface with the given name.
pub open spec fn is_first_named(infos: Seq<InterfaceInfo>, name: Seq<char>, i: int) -> bool {
    &&& 0 <= i < infos.len()
    &&& infos[i].name@ == name
    &&& forall|j: int| 0 <= j < i ==> (#[trigger] infos[j]).name@ != name
}

/// A monitoring session over one resolved interface.
pub struct NetworkMonitor {
    interface: String,
    sampler: RateSampler,
    history_dl: HistoryBuffer,
    history_ul: HistoryBuffer,
    stats_dl: StatisticsTracker,
    stats_ul: StatisticsTracker,
}

impl NetworkMonitor {
    /// The monitored interface's name.
    pub closed spec fn interface_name(&self) -> Seq<char> {
        self.interface@
    }

    /// The counter reading the next tick will diff against.
    pub closed spec fn prev(&self) -> CounterSnapshot {
        self.sampler.prev
    }

    /// The download-rate window, oldest first.
    pub closed spec fn history_dl_view(&self) -> Seq<u64> {
        self.history_dl.view()
    }

    /// The upload-rate window, oldest first.
    pub closed spec fn history_ul_view(&self) -> Seq<u64> {
        self.history_ul.view()
    }

    /// Every download rate observed, in arrival order.
    pub closed spec fn observed_dl(&self) -> Seq<u64> {
        self.stats_dl.view()
    }

    /// Every upload rate observed, in arrival order.
    pub closed spec fn observed_ul(&self) -> Seq<u64> {
        self.stats_ul.view()
    }

    /// The history windows' configured capacity.
    pub closed spec fn capacity(&self) -> nat {
        self.history_dl.spec_capacity()
    }

    /// Both windows stay within the one configured capacity and the
    /// trackers' scalars agree with their observation sequences.
    pub closed spec fn wf(&self) -> bool {
        &&& self.history_dl.wf()
        &&& self.history_ul.wf()
        &&& self.history_ul.spec_capacity() == self.capacity()
        &&& self.stats_dl.wf()
        &&& self.stats_ul.wf()
    }

    /// Starts a session on `interface`, validating it against the
    /// provider's listing and seeding the sampler with that entry's
    /// cumulative totals. Succeeds exactly when the listing holds the
    /// name; on failure the error lists every available name.
    pub fn new(
        interface: String,
        infos: &Vec<InterfaceInfo>,
        history_size: usize,
        now_ms: u64,
    ) -> (r: Result<NetworkMonitor, NotFound>)
        ensures
            r is Ok <==> (exists|i: int|
                0 <= i < infos@.len() && (#[trigger] infos@[i]).name@ == interface@),
            r is Ok ==> ({
                let m = r->Ok_0;
                &&& m.wf()
                &&& m.interface_name() == interface@
                &&& m.capacity() == history_size
                &&& m.history_dl_view() == Seq::<u64>::empty()
                &&& m.history_ul_view() == Seq::<u64>::empty()
                &&& m.observed_dl() == Seq::<u64>::empty()
                &&& m.observed_ul() == Seq::<u64>::empty()
                &&& exists|i: int|
                    #[trigger] is_first_named(infos@, interface@, i) && m.prev()
                        == (CounterSnapshot {
                        rx_bytes: infos@[i].rx_total,
                        tx_bytes: infos@[i].tx_total,
                        taken_at_ms: now_ms,
                    })
            }),
            r is Err ==> lists_available(r->Err_0, infos@),
    {
        let ic = to_chars(interface.as_str());
        let n = infos.len();
        for i in 0..n
            invariant
                n == infos@.len(),
                ic@ == interface@,
                forall|j: int| 0 <= j < i ==> (#[trigger] infos@[j]).name@ != interface@,
        {
            let nc = to_chars(infos[i].name.as_str());
            if eq_chars(&nc, &ic) {
                let initial = CounterSnapshot {
                    rx_bytes: infos[i].rx_total,
                    tx_bytes: infos[i].tx_total,
                    taken_at_ms: now_ms,
                };
                let m = NetworkMonitor {
                    interface,
                    sampler: RateSampler::new(initial),
                    history_dl: HistoryBuffer::new(history_size),
                    history_ul: HistoryBuffer::new(history_size),
                    stats_dl: StatisticsTracker::new(),
                    stats_ul: StatisticsTracker::new(),
                };
                proof {
                    assert(is_first_named(infos@, interface@, i as int));
                }
                return Ok(m);
            }
        }
        Err(crate::resolver::not_found(infos))
    }

    /// One tick against the counters read now. If less than one
    /// millisecond elapsed since the retained reading, the tick reports
    /// a zero rate and changes nothing. Otherwise the rates are the
    /// saturating counter deltas over the elapsed time; each goes into
    /// its direction's history window (evicting the oldest entry at
    /// capacity) and statistics tracker, and the reading is retained
    /// for the next tick.
    pub fn update(&mut self, cur_rx: u64, cur_tx: u64, now_ms: u64) -> (r: BandwidthStats)
        requires
            old(self).wf(),
            old(self).observed_dl().len() < u64::MAX,
            old(self).observed_ul().len() < u64::MAX,
        ensures
            final(self).wf(),
            final(self).interface_name() == old(self).interface_name(),
            final(self).capacity() == old(self).capacity(),
            r.total_rx == cur_rx && r.total_tx == cur_tx,
            ({
                let elapsed = spec_delta(old(self).prev().taken_at_ms, now_ms);
                &&& elapsed == 0 ==> {
                    &&& r.download_bps == 0 && r.upload_bps == 0
                    &&& final(self).prev() == old(self).prev()
                    &&& final(self).history_dl_view() == old(self).history_dl_view()
                    &&& final(self).history_ul_view() == old(self).history_ul_view()
                    &&& final(self).observed_dl() == old(self).observed_dl()
                    &&& final(self).observed_ul() == old(self).observed_ul()
                }
                &&& elapsed > 0 ==> {
                    let dl = spec_rate(spec_delta(old(self).prev().rx_bytes, cur_rx), elapsed);
                    let ul = spec_rate(spec_delta(old(self).prev().tx_bytes, cur_tx), elapsed);
                    &&& r.download_bps == dl && r.upload_bps == ul
                    &&& final(self).prev() == (CounterSnapshot {
                        rx_bytes: cur_rx,
                        tx_bytes: cur_tx,
                        taken_at_ms: now_ms,
                    })
                    &&& final(self).history_dl_view() == spec_push(
                        old(self).history_dl_view(),
                        dl,
                        old(self).capacity(),
                    )
                    &&& final(self).history_ul_view() == spec_push(
                        old(self).history_ul_view(),
                        ul,
                        old(self).capacity(),
                    )
                    &&& final(self).observed_dl() == old(self).observed_dl().push(dl)
                    &&& final(self).observed_ul() == old(self).observed_ul().push(ul)
                }
            }),
    {
        let cur = CounterSnapshot { rx_bytes: cur_rx, tx_bytes: cur_tx, taken_at_ms: now_ms };
        let elapsed: u64 = now_ms.saturating_sub(self.sampler.prev.taken_at_ms);
        if elapsed == 0 {
            return BandwidthStats {
                download_bps: 0,
                upload_bps: 0,
                total_rx: cur_rx,
                total_tx: cur_tx,
            };
        }
        let sample = self.sampler.sample(cur);
        self.history_dl.push(sample.download_bps);
        self.history_ul.push(sample.upload_bps);
        self.stats_dl.observe(sample.download_bps);
        self.stats_ul.observe(sample.upload_bps);
        BandwidthStats {
            download_bps: sample.download_bps,
            upload_bps: sample.upload_bps,
            total_rx: cur_rx,
            total_tx: cur_tx,
        }
    }

    /// The download-rate window, oldest first, as chart input.
    pub fn get_history_dl(&self) -> (h: Vec<u64>)
        ensures
            h@ == self.history_dl_view(),
    {
        self.history_dl.snapshot()
    }

    /// The upload-rate window, oldest first, as chart input.
    pub fn get_history_ul(&self) -> (h: Vec<u64>)
        ensures
            h@ == self.history_ul_view(),
    {
        self.history_ul.snapshot()
    }

    /// The monitored interface's name.
    pub fn interface(&self) -> (s: &String)
        ensures
            s@ == self.interface_name(),
    {
        &self.interface
    }

    /// The statistics of every download rate observed this session.
    pub fn download_stats(&self) -> (t: &StatisticsTracker)
        requires
            self.wf(),
        ensures
            t.wf(),
            t.view() == self.observed_dl(),
    {
        &self.stats_dl
    }

    /// The statistics of every upload rate observed this session.
    pub fn upload_stats(&self) -> (t: &StatisticsTracker)
        requires
            self.wf(),
        ensures
            t.wf(),
            t.view() == self.observed_ul(),
    {
        &self.stats_ul
    }
}

/// The loop's scheduling rule: a tick is due exactly when at least the
/// sampling interval has passed since the last one.
pub fn should_tick(elapsed_ms: u64, interval_ms: u64) -> (b: bool)
    ensures
        b == (elapsed_ms >= interval_ms),
{
    elapsed_ms >= interval_ms
}

} // verus!
