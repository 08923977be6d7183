use bandwidthmon::history::HistoryBuffer;
use bandwidthmon::monitor::{should_tick, NetworkMonitor};
use bandwidthmon::resolver::InterfaceInfo;
use bandwidthmon::sampler::{rate_bps, CounterSnapshot, RateSampler};
use bandwidthmon::stats::{isqrt, StatisticsTracker};

fn snap(rx: u64, tx: u64, at: u64) -> CounterSnapshot {
    CounterSnapshot { rx_bytes: rx, tx_bytes: tx, taken_at_ms: at }
}

#[test]
fn rate_is_exact_when_counters_advance() {
    let mut s = RateSampler::new(snap(1000, 500, 0));
    let r = s.sample(snap(3000, 1500, 2000));
    assert_eq!(r.download_bps, 1000);
    assert_eq!(r.upload_bps, 500);
}

#[test]
fn rate_over_one_second_is_the_delta_itself() {
    let mut s = RateSampler::new(snap(0, 0, 0));
    let r = s.sample(snap(12345, 678, 1000));
    assert_eq!(r.download_bps, 12345);
    assert_eq!(r.upload_bps, 678);
}

#[test]
fn counter_reset_clamps_delta_to_zero() {
    let mut s = RateSampler::new(snap(5000, 5000, 0));
    let r = s.sample(snap(100, 7000, 1000));
    assert_eq!(r.download_bps, 0);
    assert_eq!(r.upload_bps, 2000);
}

#[test]
fn degenerate_elapsed_gives_zero_rate_and_keeps_state() {
    let mut s = RateSampler::new(snap(1000, 1000, 5000));
    let r = s.sample(snap(9999, 9999, 5000));
    assert_eq!(r.download_bps, 0);
    assert_eq!(r.upload_bps, 0);
    // The retained reading was not replaced: the next tick still diffs
    // against the initial snapshot.
    let r2 = s.sample(snap(2000, 1500, 6000));
    assert_eq!(r2.download_bps, 1000);
    assert_eq!(r2.upload_bps, 500);
}

#[test]
fn rate_caps_at_u64_max() {
    assert_eq!(rate_bps(u64::MAX, 1), u64::MAX);
    assert_eq!(rate_bps(1000, 1), 1_000_000);
}

#[test]
fn history_keeps_last_capacity_values_in_order() {
    let mut h = HistoryBuffer::new(3);
    for v in 1..=5u64 {
        h.push(v);
    }
    assert_eq!(h.snapshot(), vec![3, 4, 5]);
    assert_eq!(h.len(), 3);
    assert_eq!(h.capacity(), 3);
}

#[test]
fn history_never_exceeds_capacity() {
    let mut h = HistoryBuffer::new(4);
    for v in 0..100u64 {
        h.push(v);
        assert!(h.len() <= 4);
    }
    assert_eq!(h.snapshot(), vec![96, 97, 98, 99]);
}

#[test]
fn history_below_capacity_keeps_everything() {
    let mut h = HistoryBuffer::new(120);
    h.push(7);
    h.push(8);
    assert_eq!(h.snapshot(), vec![7, 8]);
}

#[test]
fn history_with_zero_capacity_stays_empty() {
    let mut h = HistoryBuffer::new(0);
    h.push(1);
    h.push(2);
    assert_eq!(h.snapshot(), Vec::<u64>::new());
}

#[test]
fn mean_and_peak_of_three_samples() {
    let mut t = StatisticsTracker::new();
    t.observe(10);
    t.observe(20);
    t.observe(30);
    assert_eq!(t.mean(), 20);
    assert_eq!(t.peak(), 30);
    assert_eq!(t.minimum(), 10);
    assert_eq!(t.sample_count(), 3);
}

#[test]
fn stddev_of_three_samples() {
    let mut t = StatisticsTracker::new();
    t.observe(10);
    t.observe(20);
    t.observe(30);
    // Sample variance: (3 * 1400 - 60 * 60) / (3 * 2) = 100.
    assert_eq!(t.stddev(), 10);
}

#[test]
fn fresh_tracker_reports_zeroes() {
    let t = StatisticsTracker::new();
    assert_eq!(t.mean(), 0);
    assert_eq!(t.peak(), 0);
    assert_eq!(t.stddev(), 0);
    assert_eq!(t.sample_count(), 0);
    assert_eq!(t.minimum(), u64::MAX);
}

#[test]
fn stddev_of_one_sample_is_zero() {
    let mut t = StatisticsTracker::new();
    t.observe(42);
    assert_eq!(t.stddev(), 0);
}

#[test]
fn peak_never_decreases() {
    let mut t = StatisticsTracker::new();
    let mut prev = 0u64;
    for v in [5u64, 3, 8, 1, 8, 2] {
        t.observe(v);
        assert!(t.peak() >= prev);
        prev = t.peak();
    }
    assert_eq!(t.peak(), 8);
}

#[test]
fn isqrt_rounds_down() {
    assert_eq!(isqrt(0), 0);
    assert_eq!(isqrt(1), 1);
    assert_eq!(isqrt(3), 1);
    assert_eq!(isqrt(4), 2);
    assert_eq!(isqrt(99), 9);
    assert_eq!(isqrt(100), 10);
    assert_eq!(isqrt(u128::MAX), u64::MAX);
}

fn three_interfaces() -> Vec<InterfaceInfo> {
    vec![
        InterfaceInfo { name: String::from("eth0"), rx_total: 100, tx_total: 50 },
        InterfaceInfo { name: String::from("eth1"), rx_total: 10, tx_total: 5 },
        InterfaceInfo { name: String::from("wlan0"), rx_total: 7, tx_total: 3 },
    ]
}

#[test]
fn monitor_requires_a_listed_interface() {
    let infos = three_interfaces();
    assert!(NetworkMonitor::new(String::from("eth0"), &infos, 120, 0).is_ok());
    let err = match NetworkMonitor::new(String::from("eth9"), &infos, 120, 0) {
        Ok(_) => panic!("unlisted interface accepted"),
        Err(e) => e,
    };
    let names: Vec<&str> = err.available.iter().map(|s| s.as_str()).collect();
    assert_eq!(names, vec!["eth0", "eth1", "wlan0"]);
}

#[test]
fn monitor_ticks_feed_history_and_stats() {
    let infos = three_interfaces();
    let mut m = NetworkMonitor::new(String::from("eth0"), &infos, 2, 0).unwrap();
    assert_eq!(m.interface().as_str(), "eth0");

    let s1 = m.update(1100, 550, 1000);
    assert_eq!(s1.download_bps, 1000);
    assert_eq!(s1.upload_bps, 500);
    assert_eq!(s1.total_rx, 1100);
    assert_eq!(s1.total_tx, 550);

    let s2 = m.update(3100, 1550, 2000);
    assert_eq!(s2.download_bps, 2000);
    assert_eq!(s2.upload_bps, 1000);

    let s3 = m.update(3400, 1850, 3000);
    assert_eq!(s3.download_bps, 300);
    assert_eq!(s3.upload_bps, 300);

    // Window of two keeps only the last two rates.
    assert_eq!(m.get_history_dl(), vec![2000, 300]);
    assert_eq!(m.get_history_ul(), vec![1000, 300]);

    // Statistics span the whole session regardless of the window.
    assert_eq!(m.download_stats().sample_count(), 3);
    assert_eq!(m.download_stats().peak(), 2000);
    assert_eq!(m.download_stats().mean(), 1100);
    assert_eq!(m.upload_stats().peak(), 1000);
    assert_eq!(m.upload_stats().mean(), 600);
}

#[test]
fn monitor_skips_degenerate_tick() {
    let infos = three_interfaces();
    let mut m = NetworkMonitor::new(String::from("eth0"), &infos, 8, 500).unwrap();
    let s = m.update(99999, 99999, 500);
    assert_eq!(s.download_bps, 0);
    assert_eq!(s.upload_bps, 0);
    assert_eq!(m.get_history_dl(), Vec::<u64>::new());
    assert_eq!(m.download_stats().sample_count(), 0);
}

#[test]
fn tick_is_due_at_the_interval() {
    assert!(!should_tick(499, 500));
    assert!(should_tick(500, 500));
    assert!(should_tick(501, 500));
}
