use hifi_wifi::config::structs::{
    BackendConfig, Config, GlobalConfig, GovernorConfig, PowerConfig, SystemConfig, WifiConfig,
};
use hifi_wifi::network::backend_tuner::{BackendPlan, BackendProbe, BackendTuner, WifiBackend};
use hifi_wifi::network::link_rate::{
    get_bitrate_from_iw, parse_link_bitrate, parse_rate, parse_station_bitrate,
};
use hifi_wifi::network::wifi::{
    DriverCategory, InterfaceEntry, InterfaceType, LinkStats, WifiInterface, WifiManager,
};
use hifi_wifi::system::command::{to_decimal, ToolCommand};
use hifi_wifi::system::optimizer::{
    irq_pin_status, is_pinned_to_cpu1, IrqPinStatus, OptimizerStep, SystemOptimizer,
};
use hifi_wifi::system::power::{DeviceType, PowerManager, PowerSource, PowerSupply};
use hifi_wifi::text::{
    contains, ends_with, find_subsequence, parse_i32, parse_u64, split_lines, split_whitespace,
    starts_with, to_lower, trim, trim_text,
};

fn supply(name: &str, kind: &str, online: Option<&str>, status: Option<&str>) -> PowerSupply {
    PowerSupply {
        name: name.to_string(),
        kind: Some(format!("{}\n", kind)),
        online: online.map(|s| format!("{}\n", s)),
        status: status.map(|s| format!("{}\n", s)),
        capacity: if kind == "Battery" { Some("73\n".to_string()) } else { None },
        has_capacity: kind == "Battery",
    }
}

#[test]
fn power_source_from_supplies() {
    let src = |s: &Vec<PowerSupply>| PowerManager::detect_power_source(s);
    // no battery at all: a desktop on mains
    assert_eq!(src(&vec![]), PowerSource::AC);
    assert_eq!(src(&vec![supply("AC0", "Mains", Some("0"), None)]), PowerSource::AC);
    // a discharging battery
    assert_eq!(
        src(&vec![
            supply("ACAD", "Mains", Some("0"), None),
            supply("BAT1", "Battery", None, Some("Discharging"))
        ]),
        PowerSource::Battery
    );
    // mains wins over a discharging battery
    assert_eq!(
        src(&vec![
            supply("BAT1", "Battery", None, Some("Discharging")),
            supply("ADP1", "Mains", Some("1"), None),
        ]),
        PowerSource::AC
    );
    for status in ["Charging", "Full", "Not charging"] {
        assert_eq!(src(&vec![supply("battery", "Battery", None, Some(status))]), PowerSource::AC);
    }
    // a battery in an unknown state
    assert_eq!(src(&vec![supply("BAT0", "Battery", None, Some("Unknown"))]), PowerSource::Unknown);
    assert_eq!(src(&vec![supply("BAT0", "Battery", None, None)]), PowerSource::Unknown);
    // the battery of a mouse does not count
    assert_eq!(
        src(&vec![supply("hidpp_battery_0", "Battery", None, Some("Discharging"))]),
        PowerSource::AC
    );
    assert_eq!(
        src(&vec![supply("BAT-mouse", "Battery", None, Some("Discharging"))]),
        PowerSource::AC
    );
}

#[test]
fn device_type_detection() {
    let kind = |b: Option<&str>, c: Option<&str>, bat: bool| PowerManager::detect_device_type(b, c, bat);
    assert_eq!(kind(Some("Jupiter\n"), Some("3"), false), DeviceType::SteamDeck);
    assert_eq!(kind(Some("Galileo"), None, false), DeviceType::SteamDeck);
    for chassis in ["3", "4", "5", "6", "7", "13", "15", "16"] {
        assert_eq!(kind(Some("X570"), Some(chassis), true), DeviceType::Desktop);
    }
    for chassis in ["8", "9", "10\n", "11", "14", "30", "31"] {
        assert_eq!(kind(None, Some(chassis), false), DeviceType::Laptop);
    }
    assert_eq!(kind(None, Some("1"), true), DeviceType::Laptop);
    assert_eq!(kind(None, Some("1"), false), DeviceType::Desktop);
    assert_eq!(kind(None, Some("x"), false), DeviceType::Desktop);
    assert_eq!(kind(None, None, true), DeviceType::Laptop);
    assert_eq!(kind(None, None, false), DeviceType::Desktop);
}

#[test]
fn system_battery_detection() {
    assert!(PowerManager::has_system_battery(&vec![supply("BAT0", "Battery", None, None)]));
    assert!(PowerManager::has_system_battery(&vec![supply("CMB0", "Battery", None, None)]));
    assert!(!PowerManager::has_system_battery(&vec![supply("AC", "Mains", Some("1"), None)]));
    assert!(!PowerManager::has_system_battery(&vec![supply("wacom_battery", "Battery", None, None)]));
    assert!(!PowerManager::has_system_battery(&vec![supply("hid-0001", "Battery", None, None)]));
    let mut no_capacity = supply("BAT0", "Battery", None, None);
    no_capacity.has_capacity = false;
    assert!(!PowerManager::has_system_battery(&vec![no_capacity]));
    assert!(!PowerManager::has_system_battery(&vec![]));
}

#[test]
fn power_save_only_on_battery_and_never_on_a_desktop() {
    let discharging = vec![supply("BAT0", "Battery", None, Some("Discharging"))];
    let charging = vec![supply("BAT0", "Battery", None, Some("Charging"))];
    let laptop = PowerManager::new(None, Some("10"), &discharging);
    assert_eq!(laptop.device_type(), &DeviceType::Laptop);
    assert_eq!(laptop.power_source(&discharging), PowerSource::Battery);
    assert!(laptop.should_enable_power_save(&discharging));
    assert!(!laptop.should_enable_power_save(&charging));
    let deck = PowerManager::new(Some("Galileo"), None, &discharging);
    assert!(deck.should_enable_power_save(&discharging));
    let desktop = PowerManager::new(None, Some("3"), &discharging);
    assert_eq!(desktop.device_type(), &DeviceType::Desktop);
    assert!(!desktop.should_enable_power_save(&discharging));
    // the battery alone makes a laptop
    let by_battery = PowerManager::new(None, None, &discharging);
    assert_eq!(by_battery.device_type(), &DeviceType::Laptop);
}

#[test]
fn battery_percentage_of_the_first_readable_battery() {
    let m = PowerManager::new(None, None, &vec![]);
    let mut unreadable = supply("BAT0", "Battery", None, None);
    unreadable.capacity = None;
    let mut second = supply("BAT1", "Battery", None, None);
    second.capacity = Some(" 41\n".to_string());
    assert_eq!(m.battery_percentage(&vec![unreadable.clone(), second.clone()]), Some(41));
    let mut broken = supply("battery", "Battery", None, None);
    broken.capacity = Some("full".to_string());
    assert_eq!(m.battery_percentage(&vec![broken, second]), None);
    assert_eq!(m.battery_percentage(&vec![supply("AC", "Mains", Some("1"), None)]), None);
    assert_eq!(m.battery_percentage(&vec![unreadable]), None);
}

fn entry(name: &str, driver: Option<&str>, carrier: Option<&str>) -> InterfaceEntry {
    InterfaceEntry {
        name: name.to_string(),
        driver: driver.map(|d| d.to_string()),
        carrier: carrier.map(|c| c.to_string()),
    }
}

#[test]
fn interfaces_are_detected_by_name() {
    let entries = vec![
        entry("lo", None, Some("1\n")),
        entry("wlan0", Some("ath11k_pci"), Some("1\n")),
        entry("docker0", Some("bridge"), Some("0\n")),
        entry("enp3s0", Some("r8169"), Some("0\n")),
        entry("eth1", None, None),
        entry("wlp2s0", Some("rtw89_8852be"), Some(" 1")),
    ];
    let m = WifiManager::new(&entries);
    let found = m.interfaces();
    assert_eq!(found.len(), 4);
    assert_eq!(found[0].name, "wlan0");
    assert_eq!(found[0].driver, "ath11k_pci");
    assert_eq!(found[0].category, DriverCategory::Atheros);
    assert_eq!(found[0].interface_type, InterfaceType::Wifi);
    assert!(found[0].is_active);
    assert_eq!(found[1].name, "enp3s0");
    assert_eq!(found[1].interface_type, InterfaceType::Ethernet);
    assert_eq!(found[1].category, DriverCategory::Generic);
    assert!(!found[1].is_active);
    assert_eq!(found[2].name, "eth1");
    assert_eq!(found[2].driver, "unknown");
    assert!(!found[2].is_active);
    assert_eq!(found[3].name, "wlp2s0");
    assert_eq!(found[3].category, DriverCategory::Rtw89);
    assert!(found[3].is_active);
    assert_eq!(WifiManager::new_quiet(&entries).interfaces().len(), 4);
    assert!(WifiManager::new(&Vec::new()).interfaces().is_empty());
    assert!(WifiManager::default().interfaces().is_empty());
}

#[test]
fn drivers_by_family() {
    let c = WifiManager::categorize_driver;
    assert_eq!(c("rtw89_8852be"), DriverCategory::Rtw89);
    assert_eq!(c("rtw88_8822ce"), DriverCategory::Rtw88);
    assert_eq!(c("rtl8192ee"), DriverCategory::RtlLegacy);
    assert_eq!(c("mt7921e"), DriverCategory::MediaTek);
    assert_eq!(c("xmt76x"), DriverCategory::MediaTek);
    assert_eq!(c("iwlwifi"), DriverCategory::Intel);
    assert_eq!(c("ath11k_pci"), DriverCategory::Atheros);
    assert_eq!(c("brcmfmac"), DriverCategory::Broadcom);
    assert_eq!(c("wl"), DriverCategory::Broadcom);
    assert_eq!(c("wlx"), DriverCategory::Generic);
    assert_eq!(c("rt2800usb"), DriverCategory::Ralink);
    assert_eq!(c("rt5572"), DriverCategory::Ralink);
    assert_eq!(c("mwifiex_pcie"), DriverCategory::Marvell);
    assert_eq!(c("mwl8k"), DriverCategory::Marvell);
    assert_eq!(c("unknown"), DriverCategory::Generic);
    assert_eq!(c(""), DriverCategory::Generic);
    // the first family that fits decides
    assert_eq!(c("rtl_rtw89"), DriverCategory::Rtw89);
}

fn wifi_ifc(name: &str, interface_type: InterfaceType) -> WifiInterface {
    WifiInterface {
        name: name.to_string(),
        driver: "ath11k_pci".to_string(),
        category: DriverCategory::Atheros,
        interface_type,
        is_active: true,
    }
}

#[test]
fn link_stats_of_a_wireless_interface() {
    let m = WifiManager::default();
    let report = "Connected to aa:bb:cc:dd:ee:ff (on wlan0)\n\tSSID: home\n\tfreq: 5180\n\tsignal: -52 dBm\n\trx bitrate: 780.0 MBit/s VHT-MCS 8\n\ttx bitrate: 866.7 MBit/s VHT-MCS 9 80MHz short GI VHT-NSS 2\n";
    assert_eq!(
        m.get_link_stats(&wifi_ifc("wlan0", InterfaceType::Wifi), report),
        LinkStats { signal_dbm: -52, tx_bitrate_kbit: 866_700, rx_bitrate_kbit: 780_000 }
    );
    assert_eq!(
        m.get_link_stats(&wifi_ifc("wlan0", InterfaceType::Wifi), "Not connected.\n"),
        LinkStats::default()
    );
    assert_eq!(
        m.get_link_stats(
            &wifi_ifc("wlan0", InterfaceType::Wifi),
            "signal: strong\ntx bitrate: fast\nsignal:\n"
        ),
        LinkStats { signal_dbm: -100, tx_bitrate_kbit: 0, rx_bitrate_kbit: 0 }
    );
}

#[test]
fn link_stats_of_a_wired_interface() {
    let m = WifiManager::default();
    let eth = wifi_ifc("eth0", InterfaceType::Ethernet);
    let report = "Settings for eth0:\n\tSupported ports: [ TP ]\n\tSpeed: 1000Mb/s\n\tDuplex: Full\n\tSpeed: 10Mb/s\n";
    assert_eq!(
        m.get_link_stats(&eth, report),
        LinkStats { signal_dbm: 0, tx_bitrate_kbit: 1_000_000, rx_bitrate_kbit: 1_000_000 }
    );
    assert_eq!(m.get_link_stats(&eth, "\tSpeed: Unknown!\n\tSpeed: 100Mb/s\n"), LinkStats::default());
    assert_eq!(m.get_link_stats(&eth, "\tSpeed: 2500\n").tx_bitrate_kbit, 2_500_000);
    assert_eq!(m.get_link_stats(&eth, "no speed here").tx_bitrate_kbit, 0);
}

#[test]
fn connection_of_an_interface() {
    let m = WifiManager::default();
    let wl = wifi_ifc("wlan0", InterfaceType::Wifi);
    let eth = wifi_ifc("eth0", InterfaceType::Ethernet);
    assert!(m.is_interface_connected(&wl, Some("Connected to aa:bb (on wlan0)\n")));
    assert!(m.is_interface_connected(&wl, Some("\tSSID: home\n")));
    assert!(!m.is_interface_connected(&wl, Some("Not connected.\n")));
    assert!(!m.is_interface_connected(&wl, Some("SSID: x\nNot connected.\n")));
    assert!(!m.is_interface_connected(&wl, None));
    assert!(m.is_interface_connected(&eth, Some("1\n")));
    assert!(!m.is_interface_connected(&eth, Some("0\n")));
    assert!(!m.is_interface_connected(&eth, None));
}

#[test]
fn interface_commands() {
    let m = WifiManager::default();
    let wl = wifi_ifc("wlan0", InterfaceType::Wifi);
    let eth = wifi_ifc("eth0", InterfaceType::Ethernet);
    let off = m.disable_power_save(&wl).unwrap();
    assert_eq!(off.program, "iw");
    assert_eq!(off.args, vec!["dev", "wlan0", "set", "power_save", "off"]);
    let on = m.enable_power_save(&wl).unwrap();
    assert_eq!(on.args, vec!["dev", "wlan0", "set", "power_save", "on"]);
    assert!(m.disable_power_save(&eth).is_none());
    assert!(m.enable_power_save(&eth).is_none());
    let cake = m.apply_cake(&eth, 600, "20ms");
    assert_eq!(cake.program, "tc");
    assert_eq!(
        cake.args,
        vec![
            "qdisc", "replace", "dev", "eth0", "root", "cake", "bandwidth", "600mbit", "rtt",
            "20ms", "diffserv4", "dual-dsthost", "nat", "wash", "ack-filter"
        ]
    );
    assert_eq!(m.remove_cake(&eth).args, vec!["qdisc", "del", "dev", "eth0", "root"]);
}

#[test]
fn rates_in_words() {
    assert_eq!(parse_rate(b"866.7"), Some(866_700));
    assert_eq!(parse_rate(b"1201.0"), Some(1_201_000));
    assert_eq!(parse_rate(b"54"), Some(54_000));
    assert_eq!(parse_rate(b"6.5"), Some(6_500));
    assert_eq!(parse_rate(b"0.1234"), Some(123));
    assert_eq!(parse_rate(b".5"), Some(500));
    assert_eq!(parse_rate(b"7."), Some(7_000));
    assert_eq!(parse_rate(b"+12.34"), Some(12_340));
    assert_eq!(parse_rate(b"4294967.295"), Some(4_294_967_295));
    assert_eq!(parse_rate(b"4294967.296"), Some(u32::MAX));
    assert_eq!(parse_rate(b"99999999999999999999999999"), Some(u32::MAX));
    for bad in [&b""[..], b".", b"+", b"-1", b"1.2.3", b"1e3", b"MBit/s", b"12a", b"1.a"] {
        assert_eq!(parse_rate(bad), None);
    }
}

#[test]
fn bitrate_from_the_link_report() {
    let report = "Connected to aa:bb:cc:dd:ee:ff (on wlan0)\n\tsignal: -52 dBm\n\trx bitrate: 780.0 MBit/s\n\ttx bitrate: 866.7 MBit/s VHT-MCS 9 80MHz short GI VHT-NSS 2\n";
    // the first line that speaks of a bitrate decides
    assert_eq!(parse_link_bitrate(report), Some(780_000));
    assert_eq!(
        parse_link_bitrate("\tTX Bitrate: 1201.0 MBit/s 80MHz HE-MCS 11 HE-NSS 2\n"),
        Some(1_201_000)
    );
    // the rate before the unit, where the word behind `bitrate:` is no number
    assert_eq!(parse_link_bitrate("bitrate: about 300 mbit/s"), Some(300_000));
    assert_eq!(parse_link_bitrate("300 MBit/s"), None);
    assert_eq!(parse_link_bitrate("tx bitrate: unknown\ntx bitrate: 6.0 MBit/s"), Some(6_000));
    assert_eq!(parse_link_bitrate("Not connected.\n"), None);
    assert_eq!(parse_link_bitrate(""), None);
    assert_eq!(parse_link_bitrate("tx bitrate:"), None);
}

#[test]
fn bitrate_from_the_station_report() {
    let report = "Station aa:bb (on wlan0)\n\trx bitrate:\t433.3 MBit/s\n\ttx bitrate:\t526.5 MBit/s\n";
    assert_eq!(parse_station_bitrate(report), Some(526_500));
    assert_eq!(parse_station_bitrate("rx bitrate: 433.3 MBit/s"), None);
    // only the word behind `bitrate:` counts here
    assert_eq!(parse_station_bitrate("tx bitrate: about 300 MBit/s"), None);
}

#[test]
fn bitrate_from_both_reports() {
    let link = "tx bitrate: 866.7 MBit/s";
    let station = "tx bitrate: 526.5 MBit/s";
    assert_eq!(get_bitrate_from_iw(Some(link), Some(station)), Some(866_700));
    assert_eq!(get_bitrate_from_iw(Some("Not connected."), Some(station)), Some(526_500));
    assert_eq!(get_bitrate_from_iw(Some("Not connected."), None), None);
    // without a report on the link the station is not asked
    assert_eq!(get_bitrate_from_iw(None, Some(station)), None);
    assert_eq!(get_bitrate_from_iw(None, None), None);
}

#[test]
fn backend_detection() {
    let probe = |iwd: bool, configs: &[&str], wpa: bool| BackendProbe {
        iwd_running: iwd,
        manager_configs: configs.iter().map(|c| c.to_string()).collect(),
        wpa_supplicant_running: wpa,
    };
    let backend = |p: &BackendProbe| *BackendTuner::new(true, p).backend();
    assert_eq!(backend(&probe(true, &[], true)), WifiBackend::Iwd);
    assert_eq!(
        backend(&probe(false, &["[main]\n", "[device]\nwifi.backend=iwd\n"], true)),
        WifiBackend::Iwd
    );
    assert_eq!(backend(&probe(false, &["[device]\nwifi.backend=wpa\n"], true)), WifiBackend::WpaSupplicant);
    assert_eq!(backend(&probe(false, &[], false)), WifiBackend::Unknown);
    assert_eq!(BackendTuner::detect_backend(&probe(false, &[], true)), WifiBackend::WpaSupplicant);
}

#[test]
fn backend_plans() {
    let iwd = BackendProbe { iwd_running: true, manager_configs: vec![], wpa_supplicant_running: false };
    let wpa = BackendProbe { iwd_running: false, manager_configs: vec![], wpa_supplicant_running: true };
    let tuner = BackendTuner::new(true, &iwd);
    match tuner.apply(None) {
        BackendPlan::Create(text) => {
            assert!(text.starts_with("[General]\n# Use control port over nl80211"));
            assert!(text.contains("\n[Scan]\n# Disable periodic scanning when connected (reduces latency spikes)\nDisablePeriodicScan=true\n\n[Rank]\n"));
            assert!(text.ends_with("BandModifier6GHz=3.0\n"));
            assert_eq!(text.len(), 498);
        }
        _ => panic!("expected a new file"),
    }
    match BackendTuner::new(false, &iwd).apply(None) {
        BackendPlan::Create(text) => assert!(text.contains("DisablePeriodicScan=false\n")),
        _ => panic!("expected a new file"),
    }
    match tuner.apply(Some("[General]\nEnableNetworkConfiguration=true\n")) {
        BackendPlan::Append(text) => assert_eq!(text, "\n[Scan]\nDisablePeriodicScan=true\n"),
        _ => panic!("expected an addition"),
    }
    assert!(matches!(tuner.apply(Some("[Scan]\nDisablePeriodicScan=false\n")), BackendPlan::Nothing));
    assert!(matches!(tuner.apply(Some("[Scan]\nDisableRoamingScan=true\n")), BackendPlan::Nothing));
    assert!(matches!(
        BackendTuner::new(false, &iwd).apply(Some("[General]\n")),
        BackendPlan::Nothing
    ));
    assert!(matches!(BackendTuner::new(true, &wpa).apply(None), BackendPlan::Nothing));
    assert!(tuner.revert(Some("ControlPortOverNL80211=true")));
    assert!(!tuner.revert(Some("[General]")));
    assert!(!tuner.revert(None));
}

#[test]
fn optimizer_steps() {
    let two = vec![wifi_ifc("wlan0", InterfaceType::Wifi), wifi_ifc("eth0", InterfaceType::Ethernet)];
    assert_eq!(
        SystemOptimizer::new(true, true, true).apply(&two),
        vec![
            OptimizerStep::Sysctl,
            OptimizerStep::DriverConfig(0),
            OptimizerStep::DriverConfig(1),
            OptimizerStep::IrqAffinity(0),
            OptimizerStep::IrqAffinity(1),
            OptimizerStep::Ethtool(0),
            OptimizerStep::Ethtool(1),
        ]
    );
    assert_eq!(
        SystemOptimizer::new(false, true, false).apply(&two),
        vec![
            OptimizerStep::IrqAffinity(0),
            OptimizerStep::IrqAffinity(1),
            OptimizerStep::Ethtool(0),
            OptimizerStep::Ethtool(1),
        ]
    );
    assert_eq!(SystemOptimizer::default().apply(&Vec::new()), vec![OptimizerStep::Sysctl]);
    assert_eq!(SystemOptimizer::new(false, false, false).apply(&Vec::new()), vec![]);
}

#[test]
fn optimizer_files_and_commands() {
    let o = SystemOptimizer::default();
    let text = o.apply_sysctl_tuning();
    assert!(text.starts_with("# hifi-wifi Network Optimizations\nnet.ipv4.tcp_congestion_control = bbr\n"));
    assert!(text.ends_with("net.ipv4.tcp_tw_reuse = 1\n"));
    assert_eq!(text.lines().count(), 15);
    assert!(text.contains("\nnet.ipv4.tcp_rmem = 4096 131072 4194304\n"));
    assert_eq!(
        text,
        "# hifi-wifi Network Optimizations\nnet.ipv4.tcp_congestion_control = bbr\nnet.core.rmem_default = 262144\nnet.core.wmem_default = 262144\nnet.core.rmem_max = 4194304\nnet.core.wmem_max = 4194304\nnet.ipv4.tcp_rmem = 4096 131072 4194304\nnet.ipv4.tcp_wmem = 4096 65536 4194304\nnet.ipv4.tcp_fastopen = 3\nnet.core.netdev_max_backlog = 2000\nnet.ipv4.tcp_ecn = 1\nnet.ipv4.tcp_keepalive_time = 60\nnet.ipv4.tcp_keepalive_intvl = 10\nnet.ipv4.tcp_keepalive_probes = 6\nnet.ipv4.tcp_tw_reuse = 1\n"
    );
    let settings = SystemOptimizer::sysctl_settings();
    assert_eq!(settings.len(), 14);
    assert_eq!(settings[0], ("net.ipv4.tcp_congestion_control", "bbr"));
    assert_eq!(settings[13], ("net.ipv4.tcp_tw_reuse", "1"));
    let write = SystemOptimizer::sysctl_write_command("net.ipv4.tcp_ecn", "1");
    assert_eq!(write.program, "sysctl");
    assert_eq!(write.args, vec!["-w", "net.ipv4.tcp_ecn=1"]);
    let (name, options) = o.apply_driver_config(&DriverCategory::Intel);
    assert_eq!(name, "iwlwifi.conf");
    assert_eq!(
        options,
        "# Intel Wi-Fi optimizations\noptions iwlwifi power_save=0 uapsd_disable=1 11n_disable=0\noptions iwlmvm power_scheme=1\n"
    );
    assert_eq!(o.apply_driver_config(&DriverCategory::Generic).0, "wifi_generic.conf");
    assert_eq!(o.apply_driver_config(&DriverCategory::Atheros).0, "ath_wifi.conf");
    assert_eq!(
        o.revert(),
        vec![
            "rtw89.conf", "rtw88.conf", "rtl_legacy.conf", "mediatek.conf", "iwlwifi.conf",
            "ath_wifi.conf", "broadcom.conf", "ralink.conf", "marvell.conf", "wifi_generic.conf",
        ]
    );
    let cmd = o.apply_ethtool_settings(&wifi_ifc("wlan0", InterfaceType::Wifi));
    assert_eq!(cmd.program, "ethtool");
    assert_eq!(cmd.args, vec!["-K", "wlan0", "tso", "off", "gso", "off", "gro", "on"]);
    assert!(!SystemOptimizer::sysctl_fallback_needed(true, Some(true)));
    assert!(SystemOptimizer::sysctl_fallback_needed(true, Some(false)));
    assert!(SystemOptimizer::sysctl_fallback_needed(true, None));
    assert!(SystemOptimizer::sysctl_fallback_needed(false, Some(true)));
}

#[test]
fn interrupts_of_an_interface() {
    let o = SystemOptimizer::default();
    let table = "           CPU0       CPU1\n  1:          9          0   IO-APIC   1-edge      i8042\n 98:     123456          0   PCI-MSI 524288-edge      ath11k_pci:base\n 99:         10          5   PCI-MSI 524289-edge      DP_EXT_IRQ wcn\n100:          0          0   PCI-MSI  1-edge      nvme0q0\n101:          7          7   PCI-MSI  2-edge      wlan0\n";
    let irqs: Vec<String> = o
        .optimize_irq_affinity(&wifi_ifc("wlan0", InterfaceType::Wifi), table)
        .iter()
        .map(|b| String::from_utf8(b.clone()).unwrap())
        .collect();
    assert_eq!(irqs, vec!["98", "99", "101"]);
    let mut rtl = wifi_ifc("wlp1s0", InterfaceType::Wifi);
    rtl.driver = "rtl8192ee".to_string();
    let table = " 40:  1  2  PCI-MSI  rtl_pci\n 41:  1  2  PCI-MSI  rtl8192ee\n";
    let irqs = o.optimize_irq_affinity(&rtl, table);
    assert_eq!(irqs, vec![b"40".to_vec()]);
    let mut other = wifi_ifc("wlp1s0", InterfaceType::Wifi);
    other.driver = "iwlwifi".to_string();
    assert_eq!(
        o.optimize_irq_affinity(&other, " 50: 1 iwlwifi: default queue\nno colon in wlp1s0\n"),
        vec![b"50".to_vec(), b"no colon in wlp1s0".to_vec()]
    );
    assert!(o.optimize_irq_affinity(&other, "").is_empty());
}

#[test]
fn commands_and_numbers() {
    let mut cmd = ToolCommand::new("iw");
    assert!(cmd.args.is_empty());
    cmd.arg("dev");
    cmd.arg("");
    assert_eq!(cmd.program, "iw");
    assert_eq!(cmd.args, vec!["dev", ""]);
    assert_eq!(to_decimal(0), "0");
    assert_eq!(to_decimal(7), "7");
    assert_eq!(to_decimal(10), "10");
    assert_eq!(to_decimal(340), "340");
    assert_eq!(to_decimal(4_294_967_295), "4294967295");
    assert_eq!(to_decimal(u64::MAX), "18446744073709551615");
}

#[test]
fn searching_bytes() {
    assert_eq!(find_subsequence(b"hello world", b"o w"), Some(4));
    assert_eq!(find_subsequence(b"aaab", b"ab"), Some(2));
    assert_eq!(find_subsequence(b"abab", b"ab"), Some(0));
    assert_eq!(find_subsequence(b"abc", b"abcd"), None);
    assert_eq!(find_subsequence(b"abc", b"c"), Some(2));
    assert_eq!(find_subsequence(b"abc", b""), Some(0));
    assert_eq!(find_subsequence(b"", b""), Some(0));
    assert_eq!(find_subsequence(b"", b"a"), None);
    assert!(contains(b"wifi.backend=iwd", b"=iwd"));
    assert!(!contains(b"wifi.backend=iw", b"=iwd"));
    assert!(starts_with(b"wlan0", b"wl"));
    assert!(starts_with(b"wl", b"wl"));
    assert!(!starts_with(b"w", b"wl"));
    assert!(!starts_with(b"awl", b"wl"));
    assert!(starts_with(b"x", b""));
    assert!(ends_with(b"1000Mb/s", b"Mb/s"));
    assert!(!ends_with(b"Mb/s1", b"Mb/s"));
    assert!(!ends_with(b"b/s", b"Mb/s"));
    assert_eq!(to_lower(b"TX Bitrate: [Z@"), b"tx bitrate: [z@".to_vec());
}

#[test]
fn trimming_and_splitting() {
    assert_eq!(trim(b"  a b \t\r\n"), b"a b".to_vec());
    assert_eq!(trim(b"\x0b\x0cx"), b"x".to_vec());
    assert_eq!(trim(b" \n"), Vec::<u8>::new());
    assert_eq!(trim(b""), Vec::<u8>::new());
    assert_eq!(trim(b"x"), b"x".to_vec());
    assert_eq!(trim_text(" \tValve\r\n"), "Valve");
    assert_eq!(trim_text("\u{a0}x\u{a0}"), "\u{a0}x\u{a0}");
    assert_eq!(trim_text("   "), "");
    assert_eq!(
        split_whitespace(b"  cpu  1 22\t333\n"),
        vec![b"cpu".to_vec(), b"1".to_vec(), b"22".to_vec(), b"333".to_vec()]
    );
    assert!(split_whitespace(b" \n\t").is_empty());
    assert_eq!(split_whitespace(b"one"), vec![b"one".to_vec()]);
    assert_eq!(split_lines(b"a\n\nb"), vec![b"a".to_vec(), b"".to_vec(), b"b".to_vec()]);
    assert_eq!(split_lines(b"a\n"), vec![b"a".to_vec()]);
    assert_eq!(split_lines(b"\n"), vec![b"".to_vec()]);
    assert!(split_lines(b"").is_empty());
}

#[test]
fn reading_numbers() {
    assert_eq!(parse_u64(b"0"), Some(0));
    assert_eq!(parse_u64(b"007"), Some(7));
    assert_eq!(parse_u64(b"+42"), Some(42));
    assert_eq!(parse_u64(b"18446744073709551615"), Some(u64::MAX));
    assert_eq!(parse_u64(b"18446744073709551616"), None);
    assert_eq!(parse_u64(b"99999999999999999999999"), None);
    for bad in [&b""[..], b"+", b"-1", b"1 ", b" 1", b"1a", b"++1"] {
        assert_eq!(parse_u64(bad), None);
    }
    assert_eq!(parse_i32(b"-52"), Some(-52));
    assert_eq!(parse_i32(b"+52"), Some(52));
    assert_eq!(parse_i32(b"0"), Some(0));
    assert_eq!(parse_i32(b"-0"), Some(0));
    assert_eq!(parse_i32(b"2147483647"), Some(i32::MAX));
    assert_eq!(parse_i32(b"2147483648"), None);
    assert_eq!(parse_i32(b"-2147483648"), Some(i32::MIN));
    assert_eq!(parse_i32(b"-2147483649"), None);
    for bad in [&b""[..], b"-", b"+", b"--1", b"1-", b"dBm"] {
        assert_eq!(parse_i32(bad), None);
    }
}

#[test]
fn default_configuration() {
    let c = Config::default();
    assert_eq!(c.global.tick_rate_secs, 2);
    assert_eq!(GlobalConfig::default().tick_rate_secs, 2);
    let w = WifiConfig::default();
    assert!(w.enabled);
    assert_eq!(
        (w.min_signal_2g_dbm, w.min_signal_5g_dbm, w.min_signal_6g_dbm, w.band_bias_5ghz, w.band_bias_6ghz),
        (-75, -72, -70, 15, 25)
    );
    let p = PowerConfig::default();
    assert!(p.enabled);
    assert_eq!(p.wlan_power_save, "adaptive");
    let s = SystemConfig::default();
    assert!(s.sysctl_enabled && s.irq_affinity_enabled && s.driver_tweaks_enabled);
    assert!(BackendConfig::default().iwd_periodic_scan_disable);
    let g = GovernorConfig::default();
    assert!(g.breathing_cake_enabled);
    assert_eq!(g.cake_median_window, 3);
    assert_eq!(g.cake_change_threshold_mbit, 15);
    assert_eq!(g.cake_change_threshold_permille, 150);
    assert_eq!(g.cake_overhead_permille, 850);
    assert_eq!(g.cake_hysteresis_up, 3);
    assert_eq!(g.cake_hysteresis_down, 1);
    assert!(g.game_mode_enabled);
    assert_eq!(g.game_mode_pps_threshold, 200);
    assert_eq!(g.game_mode_cooldown_secs, 30);
    assert!(g.game_mode_freeze_cake);
    assert!(g.band_steering_enabled);
    assert_eq!(g.roam_hysteresis_ticks, 3);
    assert!(g.scan_suppress);
    assert!(g.cpu_coalescing_enabled);
    assert_eq!(g.cpu_coalescing_threshold_permille, 900);
    assert_eq!(g.cpu_avg_window_size, 3);
    assert_eq!(c.governor.cake_overhead_permille, 850);
    assert_eq!(c.wifi.band_bias_6ghz, 25);
    assert_eq!(c.power.wlan_power_save, "adaptive");
    assert!(c.system.sysctl_enabled);
    assert!(c.backend.iwd_periodic_scan_disable);
}

#[test]
fn interrupt_binding_for_display() {
    for mask in ["2", "02\n", "00000002", " 000002 "] {
        assert!(is_pinned_to_cpu1(mask), "{:?}", mask);
    }
    for mask in ["", "1", "3", "20", "0002", "f"] {
        assert!(!is_pinned_to_cpu1(mask), "{:?}", mask);
    }
    assert_eq!(irq_pin_status(3, 3, 3), IrqPinStatus::Optimized);
    assert_eq!(irq_pin_status(1, 1, 1), IrqPinStatus::Optimized);
    assert_eq!(irq_pin_status(3, 3, 0), IrqPinStatus::SystemManaged);
    assert_eq!(irq_pin_status(3, 3, 2), IrqPinStatus::Partial);
    assert_eq!(irq_pin_status(3, 2, 2), IrqPinStatus::Unknown);
    assert_eq!(irq_pin_status(3, 0, 0), IrqPinStatus::Unknown);
    assert_eq!(irq_pin_status(0, 0, 0), IrqPinStatus::Unknown);
}
