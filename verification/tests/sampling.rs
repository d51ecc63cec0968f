use hifi_wifi::network::stats::{NetStats, PpsMonitor};
use hifi_wifi::system::cpu::{CpuMonitor, CpuTimes};

fn times(total: u64, idle: u64) -> CpuTimes {
    CpuTimes {
        user: total - idle,
        nice: 0,
        system: 0,
        idle,
        iowait: 0,
        irq: 0,
        softirq: 0,
        steal: 0,
    }
}

#[test]
fn test_cpu_monitor_smoothing() {
    let mut monitor = CpuMonitor::new(3);

    // Raw samples of 0.5, 0.6 and 0.7, in thousandths
    monitor.sample(Some(times(0, 0)));
    monitor.sample(Some(times(1000, 500)));
    monitor.sample(Some(times(2000, 900)));
    monitor.sample(Some(times(3000, 1200)));

    let avg = monitor.smoothed_load();
    assert!((avg as i64 - 600).abs() < 10);
    assert_eq!(avg, 600);
}

#[test]
fn cpu_first_sample_is_zero() {
    let mut monitor = CpuMonitor::new(3);
    assert_eq!(monitor.smoothed_load(), 0);
    assert_eq!(monitor.sample(Some(times(5000, 100))), 0);
    // 200 of 1000 ticks idle: 800, averaged with the first 0
    assert_eq!(monitor.sample(Some(times(6000, 300))), 400);
}

#[test]
fn cpu_unreadable_source_keeps_the_load() {
    let mut monitor = CpuMonitor::new(3);
    monitor.sample(Some(times(0, 0)));
    let load = monitor.sample(Some(times(1000, 250)));
    assert_eq!(load, 375);
    assert_eq!(monitor.sample(None), 375);
    assert_eq!(monitor.smoothed_load(), 375);
}

#[test]
fn cpu_load_stays_within_bounds() {
    let mut monitor = CpuMonitor::new(2);
    monitor.sample(Some(times(1000, 1000)));
    // counters went back: no load
    assert_eq!(monitor.sample(Some(times(500, 0))), 0);
    // fully busy
    monitor.sample(Some(times(1500, 0)));
    assert_eq!(monitor.sample(Some(times(2500, 0))), 1000);
    // no time elapsed
    assert_eq!(monitor.sample(Some(times(2500, 0))), 500);
}

#[test]
fn cpu_times_from_counter_text() {
    let text = "cpu  4705 356 584 3699176 23060 0 247 11 0 0\ncpu0 1 2 3 4 5 6 7 8 9 10\n";
    let t = CpuTimes::from_proc_stat(text).unwrap();
    assert_eq!(t.user, 4705);
    assert_eq!(t.nice, 356);
    assert_eq!(t.system, 584);
    assert_eq!(t.idle, 3699176);
    assert_eq!(t.iowait, 23060);
    assert_eq!(t.irq, 0);
    assert_eq!(t.softirq, 247);
    assert_eq!(t.steal, 11);
    assert_eq!(t.total(), 4705 + 356 + 584 + 3699176 + 23060 + 247 + 11);
    assert_eq!(t.idle_time(), 3699176 + 23060);
}

#[test]
fn cpu_times_rejects_other_text() {
    assert!(CpuTimes::from_proc_stat("").is_none());
    assert!(CpuTimes::from_proc_stat("cpu0 1 2 3 4 5 6 7 8").is_none());
    assert!(CpuTimes::from_proc_stat("cpu 1 2 3 4 5 6 7").is_none());
    assert!(CpuTimes::from_proc_stat("intr 1 2 3 4 5 6 7 8\ncpu 1 2 3 4 5 6 7 8").is_none());
    // words that are no numbers are passed over
    let t = CpuTimes::from_proc_stat("cpu 1 x 2 3 4 5 6 7 8").unwrap();
    assert_eq!(t.nice, 2);
    assert_eq!(t.steal, 8);
}

#[test]
fn pps_first_call_returns_zero() {
    let mut pps = PpsMonitor::new();
    let stats = NetStats { rx_packets: 1_000_000, tx_packets: 2_000_000 };
    assert_eq!(pps.sample(Some(stats), 5_000), 0);
}

#[test]
fn pps_is_packets_per_second_rounded() {
    let mut pps = PpsMonitor::new();
    pps.sample(Some(NetStats { rx_packets: 100, tx_packets: 100 }), 1_000);
    // 500 packets in 2 s
    assert_eq!(pps.sample(Some(NetStats { rx_packets: 400, tx_packets: 300 }), 3_000), 250);
    // 10 packets in 3 s: 3.33 rounds to 3
    assert_eq!(pps.sample(Some(NetStats { rx_packets: 410, tx_packets: 300 }), 6_000), 3);
    // 11 packets in 2 s: 5.5 rounds to 6
    assert_eq!(pps.sample(Some(NetStats { rx_packets: 410, tx_packets: 311 }), 8_000), 6);
    // 7 packets in 1.5 s: 4.67 rounds to 5
    assert_eq!(pps.sample(Some(NetStats { rx_packets: 417, tx_packets: 311 }), 9_500), 5);
}

#[test]
fn pps_counter_rollback_is_zero() {
    let mut pps = PpsMonitor::new();
    pps.sample(Some(NetStats { rx_packets: 5000, tx_packets: 5000 }), 0);
    assert_eq!(pps.sample(Some(NetStats { rx_packets: 10, tx_packets: 10 }), 2_000), 0);
    // the rolled-back reading is the new baseline
    assert_eq!(pps.sample(Some(NetStats { rx_packets: 110, tx_packets: 110 }), 4_000), 100);
}

#[test]
fn pps_unreadable_counters_keep_the_rate() {
    let mut pps = PpsMonitor::new();
    pps.sample(Some(NetStats { rx_packets: 0, tx_packets: 0 }), 0);
    assert_eq!(pps.sample(Some(NetStats { rx_packets: 300, tx_packets: 0 }), 1_000), 300);
    assert_eq!(pps.sample(None, 2_000), 300);
    // the baseline is still the reading at 1 s
    assert_eq!(pps.sample(Some(NetStats { rx_packets: 500, tx_packets: 0 }), 3_000), 100);
}

#[test]
fn pps_without_elapsed_time_keeps_the_rate() {
    let mut pps = PpsMonitor::new();
    pps.sample(Some(NetStats { rx_packets: 0, tx_packets: 0 }), 1_000);
    pps.sample(Some(NetStats { rx_packets: 40, tx_packets: 0 }), 2_000);
    assert_eq!(pps.sample(Some(NetStats { rx_packets: 90, tx_packets: 0 }), 2_000), 40);
    assert_eq!(pps.sample(Some(NetStats { rx_packets: 190, tx_packets: 0 }), 1_500), 40);
}

#[test]
fn pps_saturates_on_huge_counters() {
    let mut pps = PpsMonitor::new();
    pps.sample(Some(NetStats { rx_packets: 0, tx_packets: 0 }), 0);
    let rate = pps.sample(Some(NetStats { rx_packets: u64::MAX, tx_packets: u64::MAX }), 1);
    assert_eq!(rate, u64::MAX);
}

#[test]
fn net_stats_from_counter_text() {
    let stats = NetStats::read(Some("123\n"), Some(" 456 ")).unwrap();
    assert_eq!(stats.rx_packets, 123);
    assert_eq!(stats.tx_packets, 456);
    assert_eq!(stats.total_packets(), 579);
    assert!(NetStats::read(None, Some("1")).is_none());
    assert!(NetStats::read(Some("1"), None).is_none());
    assert!(NetStats::read(Some("x"), Some("1")).is_none());
    assert!(NetStats::read(Some(""), Some("1")).is_none());
    assert!(NetStats::read(Some("18446744073709551616"), Some("1")).is_none());
    assert_eq!(
        NetStats::read(Some("18446744073709551615"), Some("+7")).unwrap().rx_packets,
        u64::MAX
    );
    let zero = NetStats::default();
    assert_eq!(zero.total_packets(), 0);
}
