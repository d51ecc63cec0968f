//! Configuration consumed at startup. Fractions are held as thousandths, so
//! that every threshold is an integer.

use vstd::prelude::*;
use vstd::string::StringExecFns;

verus! {

/// Settings shared by the whole daemon.
#[derive(Debug, Clone)]
pub struct GlobalConfig {
    /// Tick interval of the governor loop, in seconds.
    pub tick_rate_secs: u64,
}

impl Default for GlobalConfig {
    fn default() -> (c: Self)
        ensures
            c == (GlobalConfig { tick_rate_secs: 2 }),
    {
        GlobalConfig { tick_rate_secs: 2 }
    }
}

/// Band-steering settings.
#[derive(Debug, Clone)]
pub struct WifiConfig {
    pub enabled: bool,
    /// Minimum usable signal on 2.4 GHz, in dBm.
    pub min_signal_2g_dbm: i32,
    /// Minimum usable signal on 5 GHz, in dBm.
    pub min_signal_5g_dbm: i32,
    /// Minimum usable signal on 6 GHz, in dBm.
    pub min_signal_6g_dbm: i32,
    /// Score bonus of an access point on 5 GHz.
    pub band_bias_5ghz: i32,
    /// Score bonus of an access point on 6 GHz.
    pub band_bias_6ghz: i32,
}

impl WifiConfig {
    /// The standard band-steering settings: floors of -75, -72 and -70 dBm
    /// on 2.4, 5 and 6 GHz, and a bonus of 15 on 5 GHz and 25 on 6 GHz.
    pub open spec fn standard() -> WifiConfig {
        WifiConfig {
            enabled: true,
            min_signal_2g_dbm: -75i32,
            min_signal_5g_dbm: -72i32,
            min_signal_6g_dbm: -70i32,
            band_bias_5ghz: 15,
            band_bias_6ghz: 25,
        }
    }
}

impl Default for WifiConfig {
    fn default() -> (c: Self)
        ensures
            c == WifiConfig::standard(),
    {
        WifiConfig {
            enabled: true,
            min_signal_2g_dbm: -75,
            min_signal_5g_dbm: -72,
            min_signal_6g_dbm: -70,
            band_bias_5ghz: 15,
            band_bias_6ghz: 25,
        }
    }
}

/// Power-management settings.
#[derive(Debug, Clone)]
pub struct PowerConfig {
    pub enabled: bool,
    /// Wireless power-save policy: "on", "off", or anything else for adaptive.
    pub wlan_power_save: String,
}

impl Default for PowerConfig {
    fn default() -> (c: Self)
        ensures
            c.enabled,
            c.wlan_power_save@ == "adaptive"@,
    {
        PowerConfig { enabled: true, wlan_power_save: String::from_str("adaptive") }
    }
}

/// Which one-shot system optimisations are enabled.
#[derive(Debug, Clone)]
pub struct SystemConfig {
    pub sysctl_enabled: bool,
    pub irq_affinity_enabled: bool,
    pub driver_tweaks_enabled: bool,
}

impl Default for SystemConfig {
    fn default() -> (c: Self)
        ensures
            c == (SystemConfig {
                sysctl_enabled: true,
                irq_affinity_enabled: true,
                driver_tweaks_enabled: true,
            }),
    {
        SystemConfig {
            sysctl_enabled: true,
            irq_affinity_enabled: true,
            driver_tweaks_enabled: true,
        }
    }
}

/// Settings for the wireless backend.
#[derive(Debug, Clone)]
pub struct BackendConfig {
    pub iwd_periodic_scan_disable: bool,
}

impl Default for BackendConfig {
    fn default() -> (c: Self)
        ensures
            c == (BackendConfig { iwd_periodic_scan_disable: true }),
    {
        BackendConfig { iwd_periodic_scan_disable: true }
    }
}

/// Settings of the governor's control algorithms.
#[derive(Debug, Clone)]
pub struct GovernorConfig {
    /// Enable dynamic adjustment of the shaping bandwidth.
    pub breathing_cake_enabled: bool,
    /// Size of the median window, in samples.
    pub cake_median_window: usize,
    /// Absolute change, in Mbit/s, that makes a new target significant.
    pub cake_change_threshold_mbit: u32,
    /// Relative change, in thousandths, that makes a new target significant.
    pub cake_change_threshold_permille: u32,
    /// Share of the link rate given to the shaper, in thousandths.
    pub cake_overhead_permille: u32,
    /// Qualifying samples required before an increase is applied.
    pub cake_hysteresis_up: u32,
    /// Qualifying samples required before a decrease is applied.
    pub cake_hysteresis_down: u32,
    /// Enable game-mode detection by packet rate.
    pub game_mode_enabled: bool,
    /// Packet rate above which game mode is armed, in packets per second.
    pub game_mode_pps_threshold: u64,
    /// How long game mode lasts after the packet rate last exceeded the
    /// threshold, in seconds.
    pub game_mode_cooldown_secs: u64,
    /// Freeze the bandwidth estimator during game mode.
    pub game_mode_freeze_cake: bool,
    /// Enable band steering.
    pub band_steering_enabled: bool,
    /// Consecutive ticks a better access point must stay best before a scan
    /// is requested.
    pub roam_hysteresis_ticks: u32,
    /// Suppress background scans while a wireless device is connected.
    pub scan_suppress: bool,
    /// Enable CPU-based interrupt coalescing.
    pub cpu_coalescing_enabled: bool,
    /// CPU load above which coalescing stays on in game mode, in thousandths.
    pub cpu_coalescing_threshold_permille: u32,
    /// Size of the rolling window of CPU load samples.
    pub cpu_avg_window_size: usize,
}

impl GovernorConfig {
    /// The standard settings of the governor.
    pub open spec fn standard() -> GovernorConfig {
        GovernorConfig {
            breathing_cake_enabled: true,
            cake_median_window: 3,
            cake_change_threshold_mbit: 15,
            cake_change_threshold_permille: 150,
            cake_overhead_permille: 850,
            cake_hysteresis_up: 3,
            cake_hysteresis_down: 1,
            game_mode_enabled: true,
            game_mode_pps_threshold: 200,
            game_mode_cooldown_secs: 30,
            game_mode_freeze_cake: true,
            band_steering_enabled: true,
            roam_hysteresis_ticks: 3,
            scan_suppress: true,
            cpu_coalescing_enabled: true,
            cpu_coalescing_threshold_permille: 900,
            cpu_avg_window_size: 3,
        }
    }
}

impl Default for GovernorConfig {
    fn default() -> (c: Self)
        ensures
            c == GovernorConfig::standard(),
    {
        GovernorConfig {
            breathing_cake_enabled: true,
            cake_median_window: 3,
            cake_change_threshold_mbit: 15,
            cake_change_threshold_permille: 150,
            cake_overhead_permille: 850,
            cake_hysteresis_up: 3,
            cake_hysteresis_down: 1,
            game_mode_enabled: true,
            game_mode_pps_threshold: 200,
            game_mode_cooldown_secs: 30,
            game_mode_freeze_cake: true,
            band_steering_enabled: true,
            roam_hysteresis_ticks: 3,
            scan_suppress: true,
            cpu_coalescing_enabled: true,
            cpu_coalescing_threshold_permille: 900,
            cpu_avg_window_size: 3,
        }
    }
}

/// The whole configuration.
#[derive(Debug, Clone)]
pub struct Config {
    pub global: GlobalConfig,
    pub wifi: WifiConfig,
    pub power: PowerConfig,
    pub system: SystemConfig,
    pub backend: BackendConfig,
    pub governor: GovernorConfig,
}

impl Default for Config {
    fn default() -> (c: Self)
        ensures
            c.global == (GlobalConfig { tick_rate_secs: 2 }),
            c.wifi == WifiConfig::standard(),
            c.power.enabled,
            c.power.wlan_power_save@ == "adaptive"@,
            c.system == (SystemConfig {
                sysctl_enabled: true,
                irq_affinity_enabled: true,
                driver_tweaks_enabled: true,
            }),
            c.backend == (BackendConfig { iwd_periodic_scan_disable: true }),
            c.governor == GovernorConfig::standard(),
    {
        Config {
            global: GlobalConfig::default(),
            wifi: WifiConfig::default(),
            power: PowerConfig::default(),
            system: SystemConfig::default(),
            backend: BackendConfig::default(),
            governor: GovernorConfig::default(),
        }
    }
}

} // verus!
