use hifi_wifi::network::tc::{
    has_cake, shaped_bandwidth, CakeAttempt, CakeStep, EthtoolManager, TcManager,
};

#[test]
fn test_median_filtering() {
    // 3 window, 15mbit/15% threshold, 3 up / 1 down hysteresis
    let mut tc = TcManager::new(3, 15, 150, 3, 1);

    // First sample - warming up (need 2 min)
    assert!(!tc.update_bandwidth(100)); // Sample 1 - warming

    // First real check after warmup is a first application, which still
    // has to pass the hysteresis for increases (3 ticks)
    assert!(!tc.update_bandwidth(100)); // Sample 2 - tick 1
    assert!(!tc.update_bandwidth(100)); // Sample 3 - tick 2
    assert!(tc.update_bandwidth(100)); // Sample 4 - tick 3 - triggers first application

    tc.set_last_applied(100);

    // Median of [100, 100, 500] = 100, so no change
    assert!(!tc.update_bandwidth(500));

    assert!(tc.get_target_mbit() <= 200);
}

#[test]
fn test_asymmetric_hysteresis() {
    let mut tc = TcManager::new(3, 15, 150, 3, 1); // 3 up, 1 down

    tc.update_bandwidth(100);
    tc.update_bandwidth(100);
    tc.update_bandwidth(100);
    tc.update_bandwidth(100); // This triggers first application
    tc.set_last_applied(100);

    // Big DROP triggers fast (1 tick) once the median has moved
    tc.update_bandwidth(50);
    tc.update_bandwidth(50);
    assert!(tc.update_bandwidth(50)); // Now median is 50, triggers drop!
    tc.set_last_applied(50);

    // Big INCREASE requires 3 ticks
    tc.update_bandwidth(100); // Tick 1 - shifts window
    tc.update_bandwidth(100); // Tick 2 - median now ~100
    tc.update_bandwidth(100); // Tick 3
    let triggered = tc.update_bandwidth(100);
    assert!(triggered, "Increase should trigger after 3+ ticks");
}

#[test]
fn test_game_mode_freezes_cake() {
    let mut tc = TcManager::default();

    tc.update_bandwidth(100);
    tc.update_bandwidth(100);
    tc.update_bandwidth(100);
    tc.update_bandwidth(100);
    tc.set_last_applied(100);

    tc.enter_game_mode();
    assert!(tc.is_game_mode());

    // Updates are ignored during game mode
    assert!(!tc.update_bandwidth(50)); // Would normally trigger
    assert!(!tc.update_bandwidth(200)); // Would normally trigger

    tc.exit_game_mode();
    assert!(!tc.is_game_mode());

    tc.update_bandwidth(50);
    tc.update_bandwidth(50);
}

#[test]
fn test_throughput_based_limit() {
    let mut tc = TcManager::default();

    // PHY says 866 Mbps but throughput is only 400
    // 400 Mbps = 50MB/s = 50_000_000 bytes/sec
    tc.update_throughput(50_000_000);

    tc.update_bandwidth(866);
    tc.update_bandwidth(866);

    let target = tc.get_target_bandwidth();
    assert!(target < 600, "Should limit based on throughput, got {}", target);
}

#[test]
fn throughput_caps_the_sample_exactly() {
    let mut tc = TcManager::default();
    tc.update_throughput(50_000_000);
    tc.update_bandwidth(866);
    tc.update_bandwidth(866);
    assert_eq!(tc.get_target_bandwidth(), 400);
}

#[test]
fn throughput_floor_is_fifty() {
    let mut tc = TcManager::default();
    // 1 Mbit/s measured: the cap is never below 50
    tc.update_throughput(125_000);
    tc.update_bandwidth(866);
    tc.update_bandwidth(866);
    assert_eq!(tc.get_target_bandwidth(), 50);
}

#[test]
fn throughput_below_one_mbit_is_ignored() {
    let mut tc = TcManager::default();
    tc.update_throughput(124_999);
    tc.update_bandwidth(866);
    tc.update_bandwidth(866);
    assert_eq!(tc.get_target_bandwidth(), 866);
}

#[test]
fn phy_sample_below_throughput_is_kept() {
    let mut tc = TcManager::default();
    tc.update_throughput(50_000_000);
    tc.update_bandwidth(120);
    tc.update_bandwidth(120);
    assert_eq!(tc.get_target_bandwidth(), 120);
}

#[test]
fn constant_stream_applies_once() {
    let mut tc = TcManager::new(3, 15, 150, 3, 1);
    let mut applies = 0;
    let mut first = 0;
    for tick in 1..=40 {
        if tc.update_bandwidth(300) {
            applies += 1;
            if first == 0 {
                first = tick;
            }
            let target = tc.get_target_bandwidth();
            assert_eq!(target, 300);
            tc.set_last_applied(target);
        }
    }
    assert_eq!(applies, 1);
    // warm-up of two samples, then three qualifying ticks
    assert_eq!(first, 4);
}

#[test]
fn warm_up_is_half_the_window_rounded_up() {
    // window of 5: three samples are needed before any decision
    let mut tc = TcManager::new(5, 15, 150, 1, 1);
    assert!(!tc.update_bandwidth(100));
    assert!(!tc.update_bandwidth(100));
    assert!(tc.update_bandwidth(100));
}

#[test]
fn window_of_one_never_decides() {
    let mut tc = TcManager::new(1, 15, 150, 1, 1);
    for _ in 0..10 {
        assert!(!tc.update_bandwidth(100));
    }
}

#[test]
fn zero_sample_is_dropped() {
    let mut tc = TcManager::new(3, 15, 150, 1, 1);
    assert!(!tc.update_bandwidth(100));
    assert!(!tc.update_bandwidth(0));
    // the zero did not enter the window: this is only the second sample
    assert!(tc.update_bandwidth(100));
    assert_eq!(tc.get_target_bandwidth(), 100);
}

#[test]
fn median_of_even_window_is_the_mean_of_the_middle() {
    let mut tc = TcManager::new(4, 15, 150, 1, 1);
    tc.update_bandwidth(100);
    tc.update_bandwidth(400);
    assert_eq!(tc.get_target_bandwidth(), 250);
    tc.update_bandwidth(200);
    assert_eq!(tc.get_target_bandwidth(), 200);
    tc.update_bandwidth(301);
    // sorted: 100 200 301 400
    assert_eq!(tc.get_target_bandwidth(), 250);
}

#[test]
fn target_defaults_and_floor() {
    let tc = TcManager::default();
    assert_eq!(tc.get_target_bandwidth(), 200);
    let mut low = TcManager::default();
    low.update_bandwidth(4);
    assert_eq!(low.get_target_bandwidth(), 10);
}

#[test]
fn single_outlier_does_not_move_the_target() {
    let mut tc = TcManager::new(3, 15, 150, 3, 1);
    tc.update_bandwidth(100);
    tc.update_bandwidth(100);
    tc.update_bandwidth(500);
    assert_eq!(tc.get_target_bandwidth(), 100);
    let mut low = TcManager::new(3, 15, 150, 3, 1);
    low.update_bandwidth(100);
    low.update_bandwidth(6);
    low.update_bandwidth(100);
    assert_eq!(low.get_target_bandwidth(), 100);
}

#[test]
fn decrease_fires_on_the_first_qualifying_sample() {
    let mut tc = TcManager::new(3, 15, 150, 3, 1);
    tc.update_bandwidth(100);
    tc.update_bandwidth(100);
    tc.set_last_applied(100);
    assert!(!tc.update_bandwidth(50)); // median still 100
    assert!(tc.update_bandwidth(50)); // median 50: first qualifying sample
}

#[test]
fn increase_needs_all_its_ticks() {
    let mut tc = TcManager::new(3, 15, 150, 3, 1);
    tc.update_bandwidth(50);
    tc.update_bandwidth(50);
    tc.set_last_applied(50);
    assert!(!tc.update_bandwidth(100)); // median 50, nothing pending
    assert!(!tc.update_bandwidth(100)); // qualifying 1
    assert!(!tc.update_bandwidth(100)); // qualifying 2: one fewer does not fire
    assert!(tc.update_bandwidth(100)); // qualifying 3
}

#[test]
fn direction_flip_restarts_the_count() {
    let mut tc = TcManager::new(2, 15, 150, 3, 2);
    assert!(!tc.update_bandwidth(100));
    assert!(!tc.update_bandwidth(100)); // first application pending: up 1
    tc.set_last_applied(100);
    assert!(!tc.update_bandwidth(200)); // median 150: up 2
    tc.set_last_applied(400);
    // median 200 is now a decrease: the count restarts at 1 and does not
    // reach the two ticks a decrease needs
    assert!(!tc.update_bandwidth(200));
    assert!(tc.update_bandwidth(200)); // down 2
}

#[test]
fn insignificant_change_clears_the_pending_one() {
    let mut tc = TcManager::new(2, 15, 150, 2, 2);
    tc.update_bandwidth(100);
    tc.set_last_applied(100);
    assert!(!tc.update_bandwidth(200)); // median 150: up 1
    assert!(!tc.update_bandwidth(10)); // median 105: nothing significant
    assert!(!tc.update_bandwidth(390)); // median 200: up 1 again
    assert!(tc.update_bandwidth(390)); // up 2
}

#[test]
fn relative_threshold_alone_is_enough() {
    // 15 % of 40 is 6: a change of 7 is significant though below 15 Mbit
    let mut tc = TcManager::new(2, 15, 150, 1, 1);
    tc.update_bandwidth(47);
    tc.update_bandwidth(47);
    tc.set_last_applied(40);
    assert!(tc.update_bandwidth(47));
    let mut quiet = TcManager::new(2, 15, 150, 1, 1);
    quiet.update_bandwidth(45);
    quiet.update_bandwidth(45);
    quiet.set_last_applied(40);
    assert!(!quiet.update_bandwidth(45));
}

#[test]
fn frozen_estimator_never_applies() {
    let mut tc = TcManager::new(3, 15, 150, 1, 1);
    tc.enter_game_mode();
    for sample in [10u32, 500, 20, 900, 900, 900, 1, 1, 1] {
        assert!(!tc.update_bandwidth(sample));
    }
    // nothing entered the window while frozen
    assert_eq!(tc.get_target_bandwidth(), 200);
}

#[test]
fn unfreezing_resets_hysteresis() {
    let mut tc = TcManager::new(3, 15, 150, 3, 1);
    tc.update_bandwidth(100);
    tc.update_bandwidth(100); // up 1
    tc.update_bandwidth(100); // up 2
    tc.enter_game_mode();
    tc.exit_game_mode();
    // the count starts again: three more qualifying samples are needed
    assert!(!tc.update_bandwidth(100));
    assert!(!tc.update_bandwidth(100));
    assert!(tc.update_bandwidth(100));
}

#[test]
fn shaping_tries_the_full_profile_then_the_plain_one() {
    let mut tc = TcManager::default();
    tc.update_bandwidth(340);
    let first = tc.apply_cake("wlan0", None);
    match first {
        CakeStep::Run(cmd, attempt) => {
            assert_eq!(attempt, CakeAttempt::Full);
            assert_eq!(cmd.program, "tc");
            assert_eq!(
                cmd.args,
                vec![
                    "qdisc", "replace", "dev", "wlan0", "root", "cake", "bandwidth", "340mbit",
                    "diffserv4", "dual-dsthost", "nat", "wash", "ack-filter"
                ]
            );
        }
        _ => panic!("expected a command"),
    }
    match tc.apply_cake("wlan0", Some((CakeAttempt::Full, false))) {
        CakeStep::Run(cmd, attempt) => {
            assert_eq!(attempt, CakeAttempt::Plain);
            assert_eq!(
                cmd.args,
                vec![
                    "qdisc", "replace", "dev", "wlan0", "root", "cake", "bandwidth", "340mbit",
                    "besteffort", "nat"
                ]
            );
        }
        _ => panic!("expected a command"),
    }
    assert!(matches!(
        tc.apply_cake("wlan0", Some((CakeAttempt::Plain, false))),
        CakeStep::Failed
    ));
    assert!(matches!(
        tc.apply_cake("wlan0", Some((CakeAttempt::Plain, true))),
        CakeStep::Applied(340)
    ));
    // the applied value is now the baseline: the same input changes nothing
    assert!(!tc.update_bandwidth(340));
}

#[test]
fn removal_and_offload_commands() {
    let tc = TcManager::default();
    let cmd = tc.remove_cake("wlan0");
    assert_eq!(cmd.program, "tc");
    assert_eq!(cmd.args, vec!["qdisc", "del", "dev", "wlan0", "root"]);
    let on = EthtoolManager::enable_coalescing("eth0");
    assert_eq!(on.program, "ethtool");
    assert_eq!(on.args, vec!["-C", "eth0", "adaptive-rx", "on"]);
    let off = EthtoolManager::disable_coalescing("eth0");
    assert_eq!(off.args, vec!["-C", "eth0", "adaptive-rx", "off"]);
    assert_eq!(EthtoolManager::enable_eee("eth0").args, vec!["--set-eee", "eth0", "eee", "on"]);
    assert_eq!(EthtoolManager::disable_eee("eth0").args, vec!["--set-eee", "eth0", "eee", "off"]);
}

#[test]
fn shaping_in_a_report() {
    let report = "qdisc cake 8001: root refcnt 2 bandwidth 340Mbit diffserv4 dual-dsthost nat wash ack-filter\n";
    assert!(has_cake(Some(report)));
    assert!(!has_cake(Some("qdisc noqueue 0: root refcnt 2\n")));
    assert!(!has_cake(None));
    assert_eq!(shaped_bandwidth(report), Some(b"340Mbit".to_vec()));
    assert_eq!(shaped_bandwidth("bandwidth   1Gbit\nbandwidth 2Gbit"), Some(b"1Gbit".to_vec()));
    assert_eq!(shaped_bandwidth("bandwidth "), None);
    assert_eq!(shaped_bandwidth("bandwidth"), None);
    assert_eq!(shaped_bandwidth("qdisc noqueue"), None);
}
