use jxpoolminer::stats::{Collector, HISTORY_CAP};

#[test]
fn test_acceptance_rate_zero_when_no_shares() {
    let collector = Collector::new();
    let (accepted, total) = collector.acceptance_rate();
    assert_eq!((accepted, total), (0, 0));
    // the rate is defined as zero when nothing was recorded
    let rate = if total == 0 { 0.0 } else { accepted as f64 / total as f64 * 100.0 };
    assert_eq!(rate, 0.0);
}

#[test]
fn test_acceptance_rate_is_accepted_over_total() {
    let mut collector = Collector::new();
    collector.record_share("cpu-0", true);
    collector.record_share("cpu-0", true);
    collector.record_share("gpu-0", true);
    collector.record_share("gpu-0", false);
    let (accepted, total) = collector.acceptance_rate();
    assert_eq!((accepted, total), (3, 4));
    assert_eq!(accepted as f64 / total as f64 * 100.0, 75.0);
}

#[test]
fn test_history_is_capped_and_evicts_oldest_first() {
    let mut collector = Collector::new();
    let extra = 5u64;
    for v in 0..(HISTORY_CAP as u64 + extra) {
        collector.record_hashrate("cpu-0", v);
    }
    let history = collector.hashrate_history("cpu-0");
    assert_eq!(history.len(), HISTORY_CAP);
    // strictly oldest-first eviction: the first `extra` samples are gone
    assert_eq!(history[0].hashrate, extra);
    assert_eq!(history[history.len() - 1].hashrate, HISTORY_CAP as u64 + extra - 1);
    for w in history.windows(2) {
        assert_eq!(w[1].hashrate, w[0].hashrate + 1);
    }
}

#[test]
fn test_record_share_counts_per_device() {
    let mut collector = Collector::new();
    collector.record_share("cpu-0", true);
    collector.record_share("cpu-0", false);
    collector.record_share("cpu-0", false);
    let stats = collector.device_stats("cpu-0").expect("the device was created");
    assert_eq!(stats.shares_accepted, 1);
    assert_eq!(stats.shares_rejected, 2);
    assert!(collector.device_stats("gpu-0").is_none());

    let global = collector.global_stats();
    assert_eq!(global.total_shares, 3);
    assert_eq!(global.accepted_shares, 1);
    assert_eq!(global.rejected_shares, 2);
}

#[test]
fn test_total_hashrate_sums_gauges() {
    let mut collector = Collector::new();
    collector.record_hashrate("cpu-0", 100);
    collector.record_hashrate("gpu-0", 250);
    // the gauge keeps only the latest sample per device
    collector.record_hashrate("cpu-0", 120);
    assert_eq!(collector.total_hashrate(), 370);
}

#[test]
fn test_all_device_stats_snapshot() {
    let mut collector = Collector::new();
    collector.record_hashrate("cpu-0", 10);
    collector.record_hashrate("gpu-0", 20);
    let all = collector.all_device_stats();
    assert_eq!(all.len(), 2);
    assert_eq!(all[0].0, "cpu-0");
    assert_eq!(all[0].1.hashrate, 10);
    assert_eq!(all[1].0, "gpu-0");
    assert_eq!(all[1].1.hashrate, 20);
}

#[test]
fn test_hashrate_history_unknown_device_is_empty() {
    let collector = Collector::new();
    assert!(collector.hashrate_history("nope").is_empty());
}

#[test]
fn test_pending_rewards_start_at_zero() {
    let collector = Collector::new();
    assert_eq!(collector.pending_rewards(), 0);
}

#[test]
fn test_temperature_and_power_gauges() {
    let mut collector = Collector::new();
    collector.update_temperature("cpu-0", 61_500);
    collector.update_power("cpu-0", 95_000);
    let stats = collector.device_stats("cpu-0").unwrap();
    assert_eq!(stats.temperature, 61_500);
    assert_eq!(stats.power_usage, 95_000);
}
