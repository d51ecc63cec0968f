use hifi_wifi::config::structs::{GovernorConfig, PowerConfig, WifiConfig};
use hifi_wifi::network::governor::{
    calculate_cake_bandwidth, power_save_decision, power_save_mode, scale, DeviceObservation,
    Governor,
    InterfaceActions, InterfaceState, PowerSaveMode, TickContext, TickInput,
};
use hifi_wifi::network::nm::{AccessPoint, DeviceState, WifiBand, WirelessDevice};
use hifi_wifi::network::stats::NetStats;
use hifi_wifi::network::steering::{best_candidate, steer, RoamCandidate};
use hifi_wifi::network::tracker::StableValueTracker;
use hifi_wifi::system::cpu::CpuTimes;
use hifi_wifi::system::power::{PowerManager, PowerSupply};

fn ap(ssid: &str, bssid: &str, band: WifiBand, signal: i32) -> AccessPoint {
    AccessPoint {
        path: format!("/ap/{}", bssid),
        ssid: ssid.to_string(),
        bssid: bssid.to_string(),
        frequency: 0,
        band,
        signal_strength: signal,
        max_bitrate: 0,
    }
}

fn device(interface: &str, state: DeviceState, bitrate: u32) -> WirelessDevice {
    WirelessDevice {
        path: format!("/dev/{}", interface),
        interface: interface.to_string(),
        state,
        bitrate,
        active_ap: None,
    }
}

fn observation(interface: &str, bitrate: u32, packets: u64) -> DeviceObservation {
    DeviceObservation {
        device: device(interface, DeviceState::Activated, bitrate),
        link_bitrate_kbit: None,
        visible_aps: None,
        packets: Some(NetStats { rx_packets: packets, tx_packets: 0 }),
        rx_bytes: None,
        tx_bytes: None,
        wired: false,
    }
}

fn context(now_ms: u64) -> TickContext {
    TickContext {
        now_ms,
        cpu_load: 0,
        on_battery: false,
        power_mode: PowerSaveMode::Adaptive,
        scan_suppressed: false,
    }
}

fn nothing() -> InterfaceActions {
    InterfaceActions {
        shape_to: None,
        coalescing: None,
        power_save: None,
        low_power_ethernet: None,
        request_scan: false,
    }
}

fn battery(status: &str) -> PowerSupply {
    PowerSupply {
        name: "BAT0".to_string(),
        kind: Some("Battery\n".to_string()),
        online: None,
        status: Some(format!("{}\n", status)),
        capacity: Some("80\n".to_string()),
        has_capacity: true,
    }
}

// ---- the stable value tracker ----

#[test]
fn tracker_applies_after_the_threshold() {
    let mut t = StableValueTracker::new(3, Some(false));
    assert_eq!(t.evaluate(true), None);
    assert_eq!(t.evaluate(true), None);
    assert_eq!(t.evaluate(true), Some(true));
    assert_eq!(t.current(), Some(true));
    // what is applied is no longer wanted anew
    assert_eq!(t.evaluate(true), None);
}

#[test]
fn tracker_toggling_never_applies() {
    let mut t = StableValueTracker::new(2, Some(false));
    let mut wanted = true;
    for _ in 0..50 {
        assert_eq!(t.evaluate(wanted), None);
        wanted = !wanted;
    }
    assert_eq!(t.current(), Some(false));
    let mut unknown = StableValueTracker::new(2, None);
    for _ in 0..50 {
        assert_eq!(unknown.evaluate(wanted), None);
        wanted = !wanted;
    }
    assert_eq!(unknown.current(), None);
}

#[test]
fn tracker_discards_pending_on_change() {
    let mut t = StableValueTracker::new(3, None);
    assert_eq!(t.evaluate(true), None);
    assert_eq!(t.evaluate(true), None);
    // another value is wanted: the two ticks for `true` are gone
    assert_eq!(t.evaluate(false), None);
    assert_eq!(t.evaluate(true), None);
    assert_eq!(t.evaluate(true), None);
    assert_eq!(t.evaluate(true), Some(true));
}

#[test]
fn tracker_resets_when_the_applied_value_is_wanted() {
    let mut t = StableValueTracker::new(2, Some(false));
    assert_eq!(t.evaluate(true), None);
    assert_eq!(t.evaluate(false), None);
    assert_eq!(t.evaluate(true), None);
    assert_eq!(t.evaluate(true), Some(true));
}

#[test]
fn tracker_thresholds_of_zero_and_one_apply_at_once() {
    let mut zero = StableValueTracker::new(0, None);
    assert_eq!(zero.evaluate(true), Some(true));
    let mut one = StableValueTracker::new(1, Some(true));
    assert_eq!(one.evaluate(false), Some(false));
    assert_eq!(one.evaluate(false), None);
}

#[test]
fn tracker_override() {
    let mut t = StableValueTracker::new(3, None);
    t.evaluate(true);
    t.set_applied(Some(true));
    assert_eq!(t.current(), Some(true));
    assert_eq!(t.evaluate(true), None);
    t.set_applied(None);
    assert_eq!(t.evaluate(true), None);
    assert_eq!(t.evaluate(true), None);
    assert_eq!(t.evaluate(true), Some(true));
}

// ---- band steering ----

#[test]
fn best_candidate_filters_and_picks_the_last_maximum() {
    let wifi = WifiConfig::default();
    let current = ap("home", "aa", WifiBand::Band2_4GHz, -60);
    let visible = vec![
        ap("home", "aa", WifiBand::Band2_4GHz, -40), // the current one
        ap("other", "bb", WifiBand::Band5GHz, -30),  // another network
        ap("home", "cc", WifiBand::Band5GHz, -73),   // below the 5 GHz floor
        ap("home", "dd", WifiBand::Band5GHz, -60),   // -45
        ap("home", "ee", WifiBand::Band6GHz, -70),   // -45: a tie, the later one wins
        ap("home", "ff", WifiBand::Band2_4GHz, -50), // -50
    ];
    assert_eq!(best_candidate(&current, &visible, &wifi), Some(4));
    assert_eq!(best_candidate(&current, &visible[..4].to_vec(), &wifi), Some(3));
    assert_eq!(best_candidate(&current, &visible[..3].to_vec(), &wifi), None);
    assert_eq!(best_candidate(&current, &Vec::new(), &wifi), None);
}

#[test]
fn steering_requests_one_scan_after_the_hysteresis() {
    let mut candidate: Option<RoamCandidate> = None;
    let b = "bb".to_string();
    assert!(!steer(&mut candidate, Some((&b, -40)), -60, 3));
    assert_eq!(candidate.as_ref().unwrap().consecutive_ticks, 1);
    assert_eq!(candidate.as_ref().unwrap().bssid, "bb");
    assert_eq!(candidate.as_ref().unwrap().score, -40);
    assert!(!steer(&mut candidate, Some((&b, -41)), -60, 3));
    assert_eq!(candidate.as_ref().unwrap().consecutive_ticks, 2);
    assert_eq!(candidate.as_ref().unwrap().score, -41);
    assert!(steer(&mut candidate, Some((&b, -40)), -60, 3));
    assert!(candidate.is_none());
    // the count starts anew after the request
    assert!(!steer(&mut candidate, Some((&b, -40)), -60, 3));
    assert_eq!(candidate.as_ref().unwrap().consecutive_ticks, 1);
}

#[test]
fn steering_restarts_for_another_access_point() {
    let mut candidate: Option<RoamCandidate> = None;
    let b = "bb".to_string();
    let c = "cc".to_string();
    steer(&mut candidate, Some((&b, -40)), -60, 3);
    steer(&mut candidate, Some((&b, -40)), -60, 3);
    assert!(!steer(&mut candidate, Some((&c, -30)), -60, 3));
    assert_eq!(candidate.as_ref().unwrap().bssid, "cc");
    assert_eq!(candidate.as_ref().unwrap().consecutive_ticks, 1);
    assert!(!steer(&mut candidate, Some((&c, -30)), -60, 3));
    assert!(steer(&mut candidate, Some((&c, -30)), -60, 3));
}

#[test]
fn steering_clears_when_the_current_one_is_as_good() {
    let mut candidate: Option<RoamCandidate> = None;
    let b = "bb".to_string();
    steer(&mut candidate, Some((&b, -40)), -60, 3);
    assert!(!steer(&mut candidate, Some((&b, -60)), -60, 3));
    assert!(candidate.is_none());
    steer(&mut candidate, Some((&b, -40)), -60, 3);
    assert!(!steer(&mut candidate, None, -60, 3));
    assert!(candidate.is_none());
}

#[test]
fn steering_with_a_hysteresis_of_one_requests_at_once() {
    let mut candidate: Option<RoamCandidate> = None;
    let b = "bb".to_string();
    assert!(steer(&mut candidate, Some((&b, -40)), -60, 1));
    assert!(candidate.is_none());
}

// ---- one interface ----

#[test]
fn game_mode_follows_the_packet_rate() {
    let config = GovernorConfig::default();
    let wifi = WifiConfig::default();
    let mut state = InterfaceState::new(&config);
    let mut packets: u64 = 0;
    let mut now: u64 = 0;
    // 30 s of silence, one tick every 2 s
    for _ in 0..16 {
        state.tick(&observation("wlan0", 0, packets), &context(now), &config, &wifi);
        assert!(!state.is_in_game(now));
        assert!(!state.tc_manager().is_game_mode());
        now += 2_000;
    }
    // 250 packets per second: above the threshold of 200
    packets += 500;
    state.tick(&observation("wlan0", 0, packets), &context(now), &config, &wifi);
    assert!(state.is_in_game(now));
    assert!(state.tc_manager().is_game_mode());
    let armed = now;
    // exactly at the threshold does not arm
    let mut quiet = InterfaceState::new(&config);
    quiet.tick(&observation("wlan0", 0, 0), &context(0), &config, &wifi);
    quiet.tick(&observation("wlan0", 0, 400), &context(2_000), &config, &wifi);
    assert!(!quiet.is_in_game(2_000));
    // silence again: game mode lasts for the cooldown of 30 s
    loop {
        now += 2_000;
        state.tick(&observation("wlan0", 0, packets), &context(now), &config, &wifi);
        if now < armed + 30_000 {
            assert!(state.is_in_game(now));
            assert!(state.tc_manager().is_game_mode());
        } else {
            assert!(!state.is_in_game(now));
            assert!(!state.tc_manager().is_game_mode());
            break;
        }
    }
    assert_eq!(now, armed + 30_000);
}

#[test]
fn game_mode_is_renewed_while_the_rate_stays_high() {
    let config = GovernorConfig::default();
    let wifi = WifiConfig::default();
    let mut state = InterfaceState::new(&config);
    state.tick(&observation("wlan0", 0, 0), &context(0), &config, &wifi);
    state.tick(&observation("wlan0", 0, 1_000), &context(2_000), &config, &wifi);
    state.tick(&observation("wlan0", 0, 2_000), &context(20_000), &config, &wifi);
    // the rate at 20 s was 56 pps: no renewal, expiry stays at 32 s
    assert!(state.is_in_game(31_999));
    assert!(!state.is_in_game(32_000));
    state.tick(&observation("wlan0", 0, 12_000), &context(30_000), &config, &wifi);
    // 1000 pps at 30 s: renewed until 60 s
    assert!(state.is_in_game(59_999));
    assert!(!state.is_in_game(60_000));
}

#[test]
fn shaping_follows_the_link_rate_with_overhead() {
    let config = GovernorConfig::default();
    let wifi = WifiConfig::default();
    let mut state = InterfaceState::new(&config);
    let mut shaped = Vec::new();
    for tick in 0..8u64 {
        let actions =
            state.tick(&observation("wlan0", 400_000, 0), &context(tick * 2_000), &config, &wifi);
        if let Some(mbit) = actions.shape_to {
            shaped.push((tick, mbit));
            state.shaping_applied(mbit);
        }
    }
    // 400 Mbit/s at 85 %: 340, applied once, on the fourth sample
    assert_eq!(shaped, vec![(3, 340)]);
    assert_eq!(state.last_good_bitrate(), Some(400_000));
}

#[test]
fn measured_throughput_limits_the_target() {
    let config = GovernorConfig::default();
    let wifi = WifiConfig::default();
    let mut state = InterfaceState::new(&config);
    let mut bytes: u64 = 0;
    let mut shaped = Vec::new();
    for tick in 0..8u64 {
        let mut obs = observation("wlan0", 866_000, 0);
        obs.rx_bytes = Some(bytes);
        obs.tx_bytes = Some(0);
        // 50 MB/s, which is 400 Mbit/s
        bytes += 100_000_000;
        let actions = state.tick(&obs, &context(tick * 2_000), &config, &wifi);
        if let Some(mbit) = actions.shape_to {
            shaped.push(mbit);
            state.shaping_applied(mbit);
        }
    }
    // the PHY rate of 866 scaled is 736; the measured 400 is the limit
    assert_eq!(shaped, vec![400]);
    assert_eq!(state.tc_manager().get_target_bandwidth(), 400);
}

#[test]
fn bitrate_sources_and_fallbacks() {
    let config = GovernorConfig::default();
    let mut both = InterfaceState::new(&config);
    both.update_bandwidth(400_000, Some(600_000), 1000);
    assert_eq!(both.last_good_bitrate(), Some(500_000));
    assert_eq!(both.tc_manager().get_target_bandwidth(), 500);
    let mut primary = InterfaceState::new(&config);
    primary.update_bandwidth(400_000, Some(19_999), 1000);
    assert_eq!(primary.last_good_bitrate(), Some(400_000));
    let mut secondary = InterfaceState::new(&config);
    secondary.update_bandwidth(19_999, Some(20_000), 1000);
    assert_eq!(secondary.last_good_bitrate(), Some(20_000));
    assert_eq!(secondary.tc_manager().get_target_bandwidth(), 20);
    // neither plausible: the last good one is used again
    secondary.update_bandwidth(0, None, 1000);
    assert_eq!(secondary.last_good_bitrate(), Some(20_000));
    assert_eq!(secondary.tc_manager().get_target_bandwidth(), 20);
    // never any: the default of 100 Mbit/s, scaled
    let mut none = InterfaceState::new(&config);
    assert_eq!(none.update_bandwidth(0, Some(0), 850), None);
    assert_eq!(none.last_good_bitrate(), None);
    assert_eq!(none.tc_manager().get_target_bandwidth(), 85);
}

#[test]
fn scaling_rounds_down_and_saturates() {
    assert_eq!(scale(100, 850), 85);
    assert_eq!(scale(866, 850), 736);
    assert_eq!(scale(7, 850), 5);
    assert_eq!(scale(0, 850), 0);
    assert_eq!(scale(u32::MAX, 1000), u32::MAX);
    assert_eq!(scale(u32::MAX, 2000), u32::MAX);
}

#[test]
fn frozen_interface_is_not_reshaped() {
    let config = GovernorConfig::default();
    let wifi = WifiConfig::default();
    let mut state = InterfaceState::new(&config);
    // a high packet rate from the second tick on
    let mut packets = 0;
    for tick in 0..20u64 {
        let actions = state.tick(
            &observation("wlan0", 400_000 + (tick as u32 % 2) * 400_000, packets),
            &context(tick * 2_000),
            &config,
            &wifi,
        );
        packets += 1_000;
        if tick >= 1 {
            assert_eq!(actions.shape_to, None);
        }
    }
}

#[test]
fn coalescing_by_game_mode_and_load() {
    let config = GovernorConfig::default();
    let wifi = WifiConfig::default();
    let mut state = InterfaceState::new(&config);
    // idle: coalescing is wanted; it starts as off and needs two ticks
    let a = state.tick(&observation("wlan0", 0, 0), &context(0), &config, &wifi);
    assert_eq!(a.coalescing, None);
    let a = state.tick(&observation("wlan0", 0, 0), &context(2_000), &config, &wifi);
    assert_eq!(a.coalescing, Some(true));
    // in game with low load: off after two ticks
    let a = state.tick(&observation("wlan0", 0, 1_000), &context(4_000), &config, &wifi);
    assert_eq!(a.coalescing, None);
    let a = state.tick(&observation("wlan0", 0, 2_000), &context(6_000), &config, &wifi);
    assert_eq!(a.coalescing, Some(false));
    // in game with a load above 90 %: on again
    let mut busy = context(8_000);
    busy.cpu_load = 901;
    let a = state.tick(&observation("wlan0", 0, 3_000), &busy, &config, &wifi);
    assert_eq!(a.coalescing, None);
    busy.now_ms = 10_000;
    let a = state.tick(&observation("wlan0", 0, 4_000), &busy, &config, &wifi);
    assert_eq!(a.coalescing, Some(true));
    // a load of exactly 90 % is not high
    busy.cpu_load = 900;
    busy.now_ms = 12_000;
    state.tick(&observation("wlan0", 0, 5_000), &busy, &config, &wifi);
    busy.now_ms = 14_000;
    let a = state.tick(&observation("wlan0", 0, 6_000), &busy, &config, &wifi);
    assert_eq!(a.coalescing, Some(false));
}

#[test]
fn power_save_modes() {
    let config = GovernorConfig::default();
    let wifi = WifiConfig::default();
    // forced off: at once, and only once
    let mut off = InterfaceState::new(&config);
    let mut ctx = context(0);
    ctx.power_mode = PowerSaveMode::Off;
    ctx.on_battery = true;
    assert_eq!(off.tick(&observation("wlan0", 0, 0), &ctx, &config, &wifi).power_save, Some(false));
    assert_eq!(off.tick(&observation("wlan0", 0, 0), &ctx, &config, &wifi).power_save, None);
    // forced on
    let mut on = InterfaceState::new(&config);
    ctx.power_mode = PowerSaveMode::On;
    ctx.on_battery = false;
    assert_eq!(on.tick(&observation("wlan0", 0, 0), &ctx, &config, &wifi).power_save, Some(true));
    assert_eq!(on.tick(&observation("wlan0", 0, 0), &ctx, &config, &wifi).power_save, None);
    // adaptive on battery and idle: on after three ticks
    let mut adaptive = InterfaceState::new(&config);
    ctx.power_mode = PowerSaveMode::Adaptive;
    ctx.on_battery = true;
    let mut seen = Vec::new();
    for tick in 0..4u64 {
        ctx.now_ms = tick * 2_000;
        seen.push(adaptive.tick(&observation("wlan0", 0, 0), &ctx, &config, &wifi).power_save);
    }
    assert_eq!(seen, vec![None, None, Some(true), None]);
    // network activity above 50 pps switches it off, again after three ticks
    let mut packets = 0;
    let mut seen = Vec::new();
    for tick in 4..8u64 {
        ctx.now_ms = tick * 2_000;
        packets += 102;
        seen.push(adaptive.tick(&observation("wlan0", 0, packets), &ctx, &config, &wifi).power_save);
    }
    assert_eq!(seen, vec![None, None, Some(false), None]);
    // exactly 50 pps is no activity
    let mut seen = Vec::new();
    for tick in 8..11u64 {
        ctx.now_ms = tick * 2_000;
        packets += 100;
        seen.push(adaptive.tick(&observation("wlan0", 0, packets), &ctx, &config, &wifi).power_save);
    }
    assert_eq!(seen, vec![None, None, Some(true)]);
}

#[test]
fn low_power_ethernet_only_on_wired_interfaces() {
    let config = GovernorConfig::default();
    let wifi = WifiConfig::default();
    let mut ctx = context(0);
    ctx.on_battery = true;
    let mut wireless = InterfaceState::new(&config);
    let mut wired = InterfaceState::new(&config);
    let mut seen = Vec::new();
    for tick in 0..3u64 {
        ctx.now_ms = tick * 2_000;
        let a = wireless.tick(&observation("wlan0", 0, 0), &ctx, &config, &wifi);
        assert_eq!(a.low_power_ethernet, None);
        let mut obs = observation("eth0", 0, 0);
        obs.wired = true;
        seen.push(wired.tick(&obs, &ctx, &config, &wifi).low_power_ethernet);
    }
    assert_eq!(seen, vec![None, None, Some(true)]);
}

#[test]
fn band_steering_in_a_tick() {
    let config = GovernorConfig::default();
    let wifi = WifiConfig::default();
    let mut state = InterfaceState::new(&config);
    let mut obs = observation("wlan0", 400_000, 0);
    obs.device.active_ap = Some(ap("home", "aa", WifiBand::Band2_4GHz, -60));
    obs.visible_aps = Some(vec![
        ap("home", "aa", WifiBand::Band2_4GHz, -60),
        ap("home", "bb", WifiBand::Band5GHz, -65),
    ]);
    // -65 + 15 = -50 beats -60 for three ticks in a row
    let mut scans = Vec::new();
    for tick in 0..5u64 {
        let a = state.tick(&obs, &context(tick * 2_000), &config, &wifi);
        scans.push(a.request_scan);
        if tick == 1 {
            let c = state.roam_candidate().as_ref().unwrap();
            assert_eq!(c.bssid, "bb");
            assert_eq!(c.score, -50);
            assert_eq!(c.consecutive_ticks, 2);
            assert_eq!(state.last_good_bitrate(), Some(400_000));
        }
        if tick == 2 {
            assert!(state.roam_candidate().is_none());
            // the cached bitrate is stale after roaming
            assert_eq!(state.last_good_bitrate(), None);
        }
    }
    assert_eq!(scans, vec![false, false, true, false, false]);
}

#[test]
fn band_steering_is_gated() {
    let config = GovernorConfig::default();
    let wifi = WifiConfig::default();
    let mut obs = observation("wlan0", 400_000, 0);
    obs.device.active_ap = Some(ap("home", "aa", WifiBand::Band2_4GHz, -60));
    obs.visible_aps = Some(vec![ap("home", "bb", WifiBand::Band5GHz, -65)]);
    // suppressed scans: nothing is counted
    let mut state = InterfaceState::new(&config);
    let mut ctx = context(0);
    ctx.scan_suppressed = true;
    for _ in 0..5 {
        assert!(!state.tick(&obs, &ctx, &config, &wifi).request_scan);
        assert!(state.roam_candidate().is_none());
    }
    // no visible access points: the candidate stays as it is
    let mut state = InterfaceState::new(&config);
    state.tick(&obs, &context(0), &config, &wifi);
    let mut empty = observation("wlan0", 400_000, 0);
    empty.device.active_ap = obs.device.active_ap.clone();
    empty.visible_aps = Some(Vec::new());
    state.tick(&empty, &context(2_000), &config, &wifi);
    assert_eq!(state.roam_candidate().as_ref().unwrap().consecutive_ticks, 1);
    empty.visible_aps = None;
    state.tick(&empty, &context(4_000), &config, &wifi);
    assert_eq!(state.roam_candidate().as_ref().unwrap().consecutive_ticks, 1);
    // steering switched off
    let mut off = GovernorConfig::default();
    off.band_steering_enabled = false;
    let mut state = InterfaceState::new(&off);
    for _ in 0..5 {
        assert!(!state.tick(&obs, &context(0), &off, &wifi).request_scan);
    }
}

#[test]
fn reconnect_clears_and_reshapes() {
    let config = GovernorConfig::default();
    let mut state = InterfaceState::new(&config);
    state.update_bandwidth(400_000, None, 850);
    state.clear_link_state();
    assert_eq!(state.last_good_bitrate(), None);
    state.reconnect_shaped(85);
    // 85 is applied and in the window beside the earlier 340
    assert_eq!(state.tc_manager().get_target_bandwidth(), (340 + 85) / 2);
}

// ---- the governor ----

fn governor(config: GovernorConfig) -> Governor {
    Governor::new(
        config,
        WifiConfig::default(),
        PowerConfig::default(),
        PowerManager::new(None, None, &Vec::new()),
    )
}

fn input(now_ms: u64, devices: Vec<DeviceObservation>) -> TickInput {
    TickInput { now_ms, cpu_times: None, supplies: Vec::new(), devices }
}

#[test]
fn governor_keeps_one_state_per_interface() {
    let mut g = governor(GovernorConfig::default());
    assert!(g.interfaces().is_empty());
    let devices = vec![
        observation("wlan0", 400_000, 0),
        DeviceObservation {
            device: device("wlan1", DeviceState::Disconnected, 0),
            ..observation("wlan1", 0, 0)
        },
        observation("wlan2", 200_000, 0),
    ];
    let actions = g.tick(&input(0, devices.clone()));
    // only connected devices are processed, each with its place
    assert_eq!(actions.len(), 2);
    assert_eq!(actions[0].0, 0);
    assert_eq!(actions[1].0, 2);
    assert_eq!(g.interfaces(), &vec!["wlan0".to_string(), "wlan2".to_string()]);
    for tick in 1..4u64 {
        g.tick(&input(tick * 2_000, devices.clone()));
    }
    assert_eq!(g.interfaces().len(), 2);
    assert_eq!(g.interface_index("wlan2"), Some(1));
    assert_eq!(g.interface_index("wlan1"), None);
    assert_eq!(g.state(0).tc_manager().get_target_bandwidth(), 340);
    assert_eq!(g.state(1).tc_manager().get_target_bandwidth(), 170);
}

#[test]
fn governor_shapes_and_confirms() {
    let mut g = governor(GovernorConfig::default());
    let mut shaped = Vec::new();
    for tick in 0..10u64 {
        let actions = g.tick(&input(tick * 2_000, vec![observation("wlan0", 400_000, 0)]));
        assert_eq!(actions.len(), 1);
        if let Some(mbit) = actions[0].1.shape_to {
            shaped.push((tick, mbit));
            g.shaping_applied(0, mbit);
        }
    }
    assert_eq!(shaped, vec![(3, 340)]);
}

#[test]
fn governor_sets_scan_suppression() {
    let mut g = governor(GovernorConfig::default());
    assert!(!g.scan_suppress_active());
    g.tick(&input(0, vec![observation("wlan0", 400_000, 0)]));
    assert!(g.scan_suppress_active());
    g.tick(&input(2_000, vec![]));
    assert!(!g.scan_suppress_active());
    let disconnected = DeviceObservation {
        device: device("wlan0", DeviceState::Disconnected, 0),
        ..observation("wlan0", 0, 0)
    };
    g.tick(&input(4_000, vec![disconnected]));
    assert!(!g.scan_suppress_active());
    // without suppression the flag never rises, and steering runs
    let mut config = GovernorConfig::default();
    config.scan_suppress = false;
    let mut free = governor(config);
    let mut obs = observation("wlan0", 400_000, 0);
    obs.device.active_ap = Some(ap("home", "aa", WifiBand::Band2_4GHz, -60));
    obs.visible_aps = Some(vec![ap("home", "bb", WifiBand::Band5GHz, -65)]);
    let mut scans = 0;
    for tick in 0..6u64 {
        let actions = free.tick(&input(tick * 2_000, vec![obs.clone()]));
        assert!(!free.scan_suppress_active());
        if actions[0].1.request_scan {
            scans += 1;
        }
    }
    assert_eq!(scans, 2);
}

#[test]
fn governor_uses_the_power_state() {
    let laptop = PowerManager::new(None, Some("10\n"), &Vec::new());
    let mut g = Governor::new(
        GovernorConfig::default(),
        WifiConfig::default(),
        PowerConfig::default(),
        laptop,
    );
    let mut seen = Vec::new();
    for tick in 0..3u64 {
        let mut i = input(tick * 2_000, vec![observation("wlan0", 400_000, 0)]);
        i.supplies = vec![battery("Discharging")];
        seen.push(g.tick(&i)[0].1.power_save);
    }
    assert_eq!(seen, vec![None, None, Some(true)]);
    // on mains power saving is switched off again
    let mut seen = Vec::new();
    for tick in 3..6u64 {
        let mut i = input(tick * 2_000, vec![observation("wlan0", 400_000, 0)]);
        i.supplies = vec![battery("Charging")];
        seen.push(g.tick(&i)[0].1.power_save);
    }
    assert_eq!(seen, vec![None, None, Some(false)]);
}

#[test]
fn governor_samples_the_cpu() {
    let mut g = governor(GovernorConfig::default());
    let busy = |total: u64| CpuTimes {
        user: total,
        nice: 0,
        system: 0,
        idle: 0,
        iowait: 0,
        irq: 0,
        softirq: 0,
        steal: 0,
    };
    // in game from the second tick on, and fully busy
    let mut packets = 0;
    let mut seen = Vec::new();
    for tick in 0..6u64 {
        let mut i = input(tick * 2_000, vec![observation("wlan0", 0, packets)]);
        i.cpu_times = Some(busy(tick * 1_000));
        packets += 1_000;
        seen.push(g.tick(&i)[0].1.coalescing);
    }
    // the smoothed load is 0, 500, 666 and then 1000: coalescing is wanted
    // from the fourth tick on and applied on the fifth
    assert_eq!(seen, vec![None, None, None, None, Some(true), None]);
}

#[test]
fn governor_reconnect_and_stop() {
    let mut g = governor(GovernorConfig::default());
    for tick in 0..4u64 {
        g.tick(&input(tick * 2_000, vec![observation("wlan0", 400_000, 0)]));
    }
    assert_eq!(g.state(0).last_good_bitrate(), Some(400_000));
    let mbit = g.handle_connection_event();
    assert_eq!(mbit, 85);
    assert_eq!(g.state(0).last_good_bitrate(), None);
    g.reconnect_shaped(0, mbit);
    // the forced value is the baseline now: the old samples are a change
    assert_eq!(g.stop(), &vec!["wlan0".to_string()]);
}

#[test]
fn power_save_mode_from_setting() {
    assert_eq!(power_save_mode("on"), PowerSaveMode::On);
    assert_eq!(power_save_mode("off"), PowerSaveMode::Off);
    assert_eq!(power_save_mode("adaptive"), PowerSaveMode::Adaptive);
    assert_eq!(power_save_mode("ON"), PowerSaveMode::Adaptive);
    assert_eq!(power_save_mode(""), PowerSaveMode::Adaptive);
}

#[test]
fn power_save_by_mode() {
    assert!(power_save_decision(PowerSaveMode::On, false));
    assert!(!power_save_decision(PowerSaveMode::Off, true));
    assert!(power_save_decision(PowerSaveMode::Adaptive, true));
    assert!(!power_save_decision(PowerSaveMode::Adaptive, false));
}

#[test]
fn wired_bandwidth_from_link_speed() {
    assert_eq!(calculate_cake_bandwidth(Some(1000)), 600);
    assert_eq!(calculate_cake_bandwidth(Some(100)), 60);
    assert_eq!(calculate_cake_bandwidth(Some(1)), 1);
    assert_eq!(calculate_cake_bandwidth(Some(0)), 200);
    assert_eq!(calculate_cake_bandwidth(None), 200);
}

#[test]
fn nothing_to_do_compares_equal() {
    assert_eq!(nothing(), nothing());
}
