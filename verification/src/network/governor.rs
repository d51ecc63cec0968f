//! The governor: per-interface decision state and the order in which the
//! control algorithms run on every tick.
//!
//! The governor decides; it neither reads counters nor runs commands. Each
//! tick it is handed what was observed and hands back what is to be done.

use crate::config::structs::{GovernorConfig, PowerConfig, WifiConfig};
use crate::network::nm::{AccessPoint, DeviceState, WirelessDevice};
use crate::network::stats::{NetStats, PpsMonitor, SamplerModel};
use crate::network::steering::{
    best_candidate, best_of, candidate_view, score_under, steer, steered, RoamCandidate, RoamModel,
};
use crate::network::tc::{target_bandwidth, EstimatorModel, TcManager};
use crate::network::tracker::{StableValueTracker, TrackerModel};
use crate::system::cpu::{average_of, CpuModel, CpuMonitor, CpuTimes};
use crate::system::power::{
    power_save_wanted, power_source_of, DeviceType, PowerManager, PowerSupply,
};
use crate::text::{equal, same_text};
use vstd::prelude::*;
use vstd::string::StringSliceAdditionalSpecFns;

verus! {

/// A reported bitrate below this, in Kbit/s, is not plausible and is ignored.
pub const MIN_VALID_KBIT: u32 = 20_000;

/// The link rate assumed, in Mbit/s, where no plausible bitrate was ever
/// seen.
pub const DEFAULT_MBIT: u32 = 100;

/// A packet rate above this counts as network activity.
pub const ACTIVITY_PPS: u64 = 50;

/// A throughput at or below this, in bytes per second, says nothing about
/// the link.
pub const MIN_THROUGHPUT_BPS: u64 = 100_000;

/// Throughput is measured over more than this many milliseconds.
pub const MIN_THROUGHPUT_WINDOW_MS: u64 = 500;

/// Ticks a coalescing change must be wanted before it is applied.
pub const COALESCING_TICKS: u32 = 2;

/// Ticks a power-save change must be wanted before it is applied.
pub const POWER_SAVE_TICKS: u32 = 3;

/// Ticks a low-power-ethernet change must be wanted before it is applied.
pub const EEE_TICKS: u32 = 3;

/// How wireless power save is decided.
#[derive(Debug, Clone, Copy, PartialEq, Eq, Structural)]
pub enum PowerSaveMode {
    /// Always on.
    On,
    /// Always off.
    Off,
    /// By power source, game mode and network activity.
    Adaptive,
}

/// The mode that a setting stands for: `on`, `off`, and adaptive for
/// anything else.
pub open spec fn mode_of(setting: Seq<u8>) -> PowerSaveMode {
    if setting == "off".spec_bytes() {
        PowerSaveMode::Off
    } else if setting == "on".spec_bytes() {
        PowerSaveMode::On
    } else {
        PowerSaveMode::Adaptive
    }
}

/// Reads the power-save mode from its setting.
pub fn power_save_mode(setting: &str) -> (mode: PowerSaveMode)
    ensures
        mode == mode_of(setting.spec_bytes()),
{
    if equal(setting.as_bytes(), "off".as_bytes()) {
        PowerSaveMode::Off
    } else if equal(setting.as_bytes(), "on".as_bytes()) {
        PowerSaveMode::On
    } else {
        PowerSaveMode::Adaptive
    }
}

/// Whether power save is to be on: as the mode forces it, or as the power
/// state asks where the mode is adaptive.
pub fn power_save_decision(mode: PowerSaveMode, on_battery: bool) -> (on: bool)
    ensures
        on == match mode {
            PowerSaveMode::On => true,
            PowerSaveMode::Off => false,
            PowerSaveMode::Adaptive => on_battery,
        },
{
    match mode {
        PowerSaveMode::On => true,
        PowerSaveMode::Off => false,
        PowerSaveMode::Adaptive => on_battery,
    }
}

/// Whether game mode is active at `now_ms`.
pub open spec fn in_game(until: Option<u64>, now_ms: u64) -> bool {
    match until {
        Some(u) => now_ms < u,
        None => false,
    }
}

/// When game mode armed at `now_ms` expires: `cooldown_secs` later, at most
/// `u64::MAX`.
pub open spec fn expiry(now_ms: u64, cooldown_secs: u64) -> u64 {
    if now_ms + cooldown_secs * 1000 > u64::MAX {
        u64::MAX
    } else {
        (now_ms + cooldown_secs * 1000) as u64
    }
}

/// The bitrate, in Kbit/s, that two sources agree on: the mean of those that
/// are plausible, zero where neither is.
pub open spec fn effective_bitrate(primary_kbit: u32, secondary_kbit: u32) -> u32 {
    let primary_ok = primary_kbit >= MIN_VALID_KBIT;
    let secondary_ok = secondary_kbit >= MIN_VALID_KBIT;
    if primary_ok && secondary_ok {
        ((primary_kbit + secondary_kbit) / 2) as u32
    } else if primary_ok {
        primary_kbit
    } else if secondary_ok {
        secondary_kbit
    } else {
        0
    }
}

/// `mbit` scaled by `permille` thousandths, rounded down, at most `u32::MAX`.
pub open spec fn scaled(mbit: u32, permille: u32) -> u32 {
    if mbit * permille / 1000 > u32::MAX {
        u32::MAX
    } else {
        (mbit * permille / 1000) as u32
    }
}

/// The link rate, in Mbit/s, that a tick goes by: the effective bitrate where
/// there is one, else the last good one, else the default.
pub open spec fn link_rate_mbit(effective_kbit: u32, last_good_kbit: Option<u32>) -> u32 {
    if effective_kbit > 0 {
        effective_kbit / 1000
    } else {
        match last_good_kbit {
            Some(last) => last / 1000,
            None => DEFAULT_MBIT,
        }
    }
}

/// Whether interrupt coalescing is wanted: always outside game mode, in game
/// mode only under high CPU load.
pub open spec fn coalescing_wanted(in_game: bool, cpu_load: u32, threshold: u32) -> bool {
    !in_game || cpu_load > threshold
}

/// Whether a low-power mode is wanted: on battery, outside game mode, and
/// without network activity.
pub open spec fn low_power_wanted(on_battery: bool, in_game: bool, pps: u64) -> bool {
    on_battery && !in_game && !(pps > ACTIVITY_PPS)
}

/// The throughput, in bytes per second, between two readings of the byte
/// counters; counters that went back count as no traffic.
pub open spec fn throughput_between(
    last_rx: u64,
    last_tx: u64,
    rx: u64,
    tx: u64,
    elapsed_ms: u64,
) -> nat
    recommends
        elapsed_ms > 0,
{
    let rx_delta = if rx >= last_rx { rx - last_rx } else { 0 };
    let tx_delta = if tx >= last_tx { tx - last_tx } else { 0 };
    ((rx_delta + tx_delta) * 1000 / elapsed_ms as int) as nat
}

/// What was observed of one wireless device for one tick.
#[derive(Debug, Clone)]
pub struct DeviceObservation {
    /// The device as the connectivity service reports it.
    pub device: WirelessDevice,
    /// The bitrate from the link-layer query tool, in Kbit/s.
    pub link_bitrate_kbit: Option<u32>,
    /// The access points the device sees; `None` where they were not asked
    /// for or the query failed.
    pub visible_aps: Option<Vec<AccessPoint>>,
    /// The packet counters, `None` where unreadable.
    pub packets: Option<NetStats>,
    /// The received-bytes counter, `None` where unreadable.
    pub rx_bytes: Option<u64>,
    /// The sent-bytes counter, `None` where unreadable.
    pub tx_bytes: Option<u64>,
    /// Whether the interface is a wired one.
    pub wired: bool,
}

/// What holds for all devices of one tick.
#[derive(Debug, Clone, Copy)]
pub struct TickContext {
    /// The time of the tick, in milliseconds of a monotonic clock.
    pub now_ms: u64,
    /// The smoothed CPU load, in thousandths.
    pub cpu_load: u32,
    /// Whether the machine's power state asks for power saving.
    pub on_battery: bool,
    /// How wireless power save is decided.
    pub power_mode: PowerSaveMode,
    /// Whether scan suppression is engaged.
    pub scan_suppressed: bool,
}

/// What is to be done for one interface after a tick.
#[derive(Debug, Clone, Copy, PartialEq, Eq, Structural)]
pub struct InterfaceActions {
    /// Shape the interface to this bandwidth, in Mbit/s.
    pub shape_to: Option<u32>,
    /// Switch interrupt coalescing.
    pub coalescing: Option<bool>,
    /// Switch wireless power save.
    pub power_save: Option<bool>,
    /// Switch low-power ethernet.
    pub low_power_ethernet: Option<bool>,
    /// Ask the connectivity service for a scan.
    pub request_scan: bool,
}

/// The decision state of one interface as a mathematical value.
pub struct InterfaceModel {
    pub pps: SamplerModel,
    pub tc: EstimatorModel,
    pub roam: Option<RoamModel>,
    /// When game mode expires, in milliseconds of a monotonic clock.
    pub game_mode_until: Option<u64>,
    pub coalescing: TrackerModel,
    pub power_save: TrackerModel,
    pub eee: TrackerModel,
    pub last_rx_bytes: u64,
    pub last_tx_bytes: u64,
    pub last_stats_time: Option<u64>,
    /// Whether the estimator was fed since the link last changed.
    pub bandwidth_valid: bool,
    /// The last plausible bitrate, in Kbit/s.
    pub last_good_bitrate: Option<u32>,
}

impl InterfaceModel {
    /// The state of an interface seen for the first time.
    pub open spec fn fresh(config: GovernorConfig) -> InterfaceModel {
        InterfaceModel {
            pps: SamplerModel::fresh(),
            tc: EstimatorModel::fresh(
                config.cake_median_window as nat,
                config.cake_change_threshold_mbit,
                config.cake_change_threshold_permille,
                config.cake_hysteresis_up,
                config.cake_hysteresis_down,
            ),
            roam: None,
            game_mode_until: None,
            coalescing: TrackerModel {
                current: Some(false),
                pending: None,
                stable_ticks: 0,
                threshold: COALESCING_TICKS,
            },
            power_save: TrackerModel {
                current: None,
                pending: None,
                stable_ticks: 0,
                threshold: POWER_SAVE_TICKS,
            },
            eee: TrackerModel {
                current: None,
                pending: None,
                stable_ticks: 0,
                threshold: EEE_TICKS,
            },
            last_rx_bytes: 0,
            last_tx_bytes: 0,
            last_stats_time: None,
            bandwidth_valid: false,
            last_good_bitrate: None,
        }
    }

    /// The invariant of the state: that of its parts.
    pub open spec fn wf(self) -> bool {
        &&& self.tc.wf()
        &&& self.coalescing.wf()
        &&& self.power_save.wf()
        &&& self.eee.wf()
    }

    /// Game mode after a packet-rate sample. A rate above the threshold arms
    /// the expiry anew and, on activation, freezes the estimator; once the
    /// expiry has passed without renewal, game mode ends and the estimator
    /// is released.
    pub open spec fn with_game_mode(
        self,
        pps: u64,
        now_ms: u64,
        config: GovernorConfig,
    ) -> InterfaceModel {
        if !config.game_mode_enabled {
            self
        } else if pps > config.game_mode_pps_threshold {
            InterfaceModel {
                game_mode_until: Some(expiry(now_ms, config.game_mode_cooldown_secs)),
                tc: if config.game_mode_freeze_cake && !in_game(self.game_mode_until, now_ms)
                    && !self.tc.frozen {
                    EstimatorModel {
                        frozen: true,
                        frozen_bandwidth: self.tc.last_bandwidth,
                        ..self.tc
                    }
                } else {
                    self.tc
                },
                ..self
            }
        } else if self.game_mode_until.is_some() && !in_game(self.game_mode_until, now_ms) {
            InterfaceModel {
                game_mode_until: None,
                tc: if config.game_mode_freeze_cake && self.tc.frozen {
                    EstimatorModel {
                        frozen: false,
                        frozen_bandwidth: None,
                        stable_ticks: 0,
                        pending: None,
                        ..self.tc
                    }
                } else {
                    self.tc
                },
                ..self
            }
        } else {
            self
        }
    }

    /// The state after a reading of the byte counters: the measured
    /// throughput reaches the estimator where more than half a second has
    /// passed and the traffic is worth measuring; the reading becomes the
    /// new baseline. An unreadable counter counts as zero.
    pub open spec fn with_throughput(
        self,
        rx_bytes: Option<u64>,
        tx_bytes: Option<u64>,
        now_ms: u64,
    ) -> InterfaceModel {
        let rx = match rx_bytes {
            Some(v) => v,
            None => 0,
        };
        let tx = match tx_bytes {
            Some(v) => v,
            None => 0,
        };
        let measured: Option<u64> = match self.last_stats_time {
            Some(then) => if now_ms > then && now_ms - then > MIN_THROUGHPUT_WINDOW_MS {
                let bps = throughput_between(
                    self.last_rx_bytes,
                    self.last_tx_bytes,
                    rx,
                    tx,
                    (now_ms - then) as u64,
                );
                if bps > MIN_THROUGHPUT_BPS {
                    Some(if bps > u64::MAX { u64::MAX } else { bps as u64 })
                } else {
                    None
                }
            } else {
                None
            },
            None => None,
        };
        InterfaceModel {
            tc: match measured {
                Some(bps) => self.tc.measured(bps),
                None => self.tc,
            },
            last_rx_bytes: rx,
            last_tx_bytes: tx,
            last_stats_time: Some(now_ms),
            ..self
        }
    }

    /// The state after the bitrates of a tick were fed to the estimator, and
    /// the bandwidth to shape to where the estimator asks for an
    /// application.
    pub open spec fn with_bandwidth(
        self,
        primary_kbit: u32,
        secondary_kbit: Option<u32>,
        overhead_permille: u32,
    ) -> (InterfaceModel, Option<u32>) {
        let effective = effective_bitrate(
            primary_kbit,
            match secondary_kbit {
                Some(v) => v,
                None => 0,
            },
        );
        let sample = scaled(link_rate_mbit(effective, self.last_good_bitrate), overhead_permille);
        let (tc, apply) = self.tc.observe(sample);
        (
            InterfaceModel {
                tc,
                last_good_bitrate: if effective > 0 {
                    Some(effective)
                } else {
                    self.last_good_bitrate
                },
                bandwidth_valid: true,
                ..self
            },
            if apply {
                Some(target_bandwidth(tc.window))
            } else {
                None
            },
        )
    }

    /// The state after band steering looked at the visible access points,
    /// and whether a scan is to be requested. Without a current access point
    /// or without any visible one nothing changes. A scan request also
    /// forgets the cached bitrate, which is stale after roaming.
    pub open spec fn with_steering(
        self,
        active_ap: Option<AccessPoint>,
        visible_aps: Option<Vec<AccessPoint>>,
        wifi: WifiConfig,
        hysteresis_ticks: u32,
    ) -> (InterfaceModel, bool) {
        match (active_ap, visible_aps) {
            (Some(current), Some(visible)) => if visible@.len() == 0 {
                (self, false)
            } else {
                let best = match best_of(current, visible@, wifi) {
                    Some(at) => Some((visible@[at].bssid@, score_under(visible@[at], wifi))),
                    None => None,
                };
                let (roam, scan) = steered(
                    self.roam,
                    best,
                    score_under(current, wifi),
                    hysteresis_ticks,
                );
                if scan {
                    (
                        InterfaceModel {
                            roam,
                            last_good_bitrate: None,
                            bandwidth_valid: false,
                            ..self
                        },
                        true,
                    )
                } else {
                    (InterfaceModel { roam, ..self }, false)
                }
            },
            _ => (self, false),
        }
    }

    /// The state after a reconnect was answered by shaping to `mbit` at once.
    pub open spec fn reshaped(self, mbit: u32) -> InterfaceModel {
        InterfaceModel {
            tc: (EstimatorModel { last_bandwidth: Some(mbit), ..self.tc }).observe(mbit).0,
            bandwidth_valid: true,
            ..self
        }
    }

    /// The state after the link changed: nothing cached, and no power-save
    /// state known to be applied.
    pub open spec fn cleared(self) -> InterfaceModel {
        InterfaceModel {
            last_good_bitrate: None,
            bandwidth_valid: false,
            power_save: self.power_save.overridden(None),
            ..self
        }
    }

    /// One tick for one interface: the next state and what is to be done.
    /// In this order: sample the packet rate; game mode; throughput and
    /// bandwidth; interrupt coalescing; power save; low-power ethernet; band
    /// steering.
    pub open spec fn ticked(
        self,
        obs: DeviceObservation,
        ctx: TickContext,
        config: GovernorConfig,
        wifi: WifiConfig,
    ) -> (InterfaceModel, InterfaceActions) {
        let s0 = InterfaceModel { pps: self.pps.sampled(obs.packets, ctx.now_ms), ..self };
        let pps = s0.pps.current_pps;
        let s1 = s0.with_game_mode(pps, ctx.now_ms, config);
        let gaming = in_game(s1.game_mode_until, ctx.now_ms);
        let (s2, shape_to) = if config.breathing_cake_enabled {
            s1.with_throughput(obs.rx_bytes, obs.tx_bytes, ctx.now_ms).with_bandwidth(
                obs.device.bitrate,
                obs.link_bitrate_kbit,
                config.cake_overhead_permille,
            )
        } else {
            (s1, None)
        };
        let (coalescing, coalesce) = if config.cpu_coalescing_enabled {
            s2.coalescing.evaluate(
                coalescing_wanted(gaming, ctx.cpu_load, config.cpu_coalescing_threshold_permille),
            )
        } else {
            (s2.coalescing, None)
        };
        let (power_save, save) = match ctx.power_mode {
            PowerSaveMode::Off => if s2.power_save.current != Some(false) {
                (s2.power_save.overridden(Some(false)), Some(false))
            } else {
                (s2.power_save, None)
            },
            PowerSaveMode::On => if s2.power_save.current != Some(true) {
                (s2.power_save.overridden(Some(true)), Some(true))
            } else {
                (s2.power_save, None)
            },
            PowerSaveMode::Adaptive => s2.power_save.evaluate(
                low_power_wanted(ctx.on_battery, gaming, pps),
            ),
        };
        let (eee, low_power) = if obs.wired {
            s2.eee.evaluate(low_power_wanted(ctx.on_battery, gaming, pps))
        } else {
            (s2.eee, None)
        };
        let s3 = InterfaceModel { coalescing, power_save, eee, ..s2 };
        let (s4, scan) = if config.band_steering_enabled && !ctx.scan_suppressed {
            s3.with_steering(
                obs.device.active_ap,
                obs.visible_aps,
                wifi,
                config.roam_hysteresis_ticks,
            )
        } else {
            (s3, false)
        };
        (
            s4,
            InterfaceActions {
                shape_to,
                coalescing: coalesce,
                power_save: save,
                low_power_ethernet: low_power,
                request_scan: scan,
            },
        )
    }
}

/// The decision state of one interface.
pub struct InterfaceState {
    pps_monitor: PpsMonitor,
    tc_manager: TcManager,
    roam_candidate: Option<RoamCandidate>,
    game_mode_until: Option<u64>,
    coalescing: StableValueTracker,
    power_save: StableValueTracker,
    eee: StableValueTracker,
    last_rx_bytes: u64,
    last_tx_bytes: u64,
    last_stats_time: Option<u64>,
    bandwidth_valid: bool,
    last_good_bitrate: Option<u32>,
}

impl View for InterfaceState {
    type V = InterfaceModel;

    closed spec fn view(&self) -> InterfaceModel {
        InterfaceModel {
            pps: self.pps_monitor@,
            tc: self.tc_manager@,
            roam: candidate_view(self.roam_candidate),
            game_mode_until: self.game_mode_until,
            coalescing: self.coalescing@,
            power_save: self.power_save@,
            eee: self.eee@,
            last_rx_bytes: self.last_rx_bytes,
            last_tx_bytes: self.last_tx_bytes,
            last_stats_time: self.last_stats_time,
            bandwidth_valid: self.bandwidth_valid,
            last_good_bitrate: self.last_good_bitrate,
        }
    }
}

/// `mbit` scaled by `permille` thousandths.
pub fn scale(mbit: u32, permille: u32) -> (out: u32)
    ensures
        out == scaled(mbit, permille),
{
    let m: u64 = mbit as u64;
    let p: u64 = permille as u64;
    assert(m * p <= 0xFFFF_FFFF * 0xFFFF_FFFF) by (nonlinear_arith)
        requires
            m <= 0xFFFF_FFFF,
            p <= 0xFFFF_FFFF,
    ;
    let product: u64 = m * p / 1000;
    if product > u32::MAX as u64 {
        u32::MAX
    } else {
        product as u32
    }
}

impl InterfaceState {
    /// The state of an interface seen for the first time.
    pub fn new(config: &GovernorConfig) -> (state: Self)
        ensures
            state@ == InterfaceModel::fresh(*config),
            state@.wf(),
    {
        InterfaceState {
            pps_monitor: PpsMonitor::new(),
            tc_manager: TcManager::new(
                config.cake_median_window,
                config.cake_change_threshold_mbit,
                config.cake_change_threshold_permille,
                config.cake_hysteresis_up,
                config.cake_hysteresis_down,
            ),
            roam_candidate: None,
            game_mode_until: None,
            coalescing: StableValueTracker::new(COALESCING_TICKS, Some(false)),
            power_save: StableValueTracker::new(POWER_SAVE_TICKS, None),
            eee: StableValueTracker::new(EEE_TICKS, None),
            last_rx_bytes: 0,
            last_tx_bytes: 0,
            last_stats_time: None,
            bandwidth_valid: false,
            last_good_bitrate: None,
        }
    }

    /// The bandwidth estimator of this interface.
    pub fn tc_manager(&self) -> (tc: &TcManager)
        ensures
            tc@ == self@.tc,
    {
        &self.tc_manager
    }

    /// The access point that band steering is counting, if any.
    pub fn roam_candidate(&self) -> (candidate: &Option<RoamCandidate>)
        ensures
            candidate_view(*candidate) == self@.roam,
    {
        &self.roam_candidate
    }

    /// Whether the estimator was fed since the link last changed.
    pub fn bandwidth_valid(&self) -> (valid: bool)
        ensures
            valid == self@.bandwidth_valid,
    {
        self.bandwidth_valid
    }

    /// The last plausible bitrate, in Kbit/s.
    pub fn last_good_bitrate(&self) -> (kbit: Option<u32>)
        ensures
            kbit == self@.last_good_bitrate,
    {
        self.last_good_bitrate
    }

    /// Whether game mode is active at `now_ms`.
    pub fn is_in_game(&self, now_ms: u64) -> (active: bool)
        ensures
            active == in_game(self@.game_mode_until, now_ms),
    {
        match self.game_mode_until {
            Some(until) => now_ms < until,
            None => false,
        }
    }

    /// Game-mode detection for one packet-rate sample.
    pub fn update_game_mode(&mut self, pps: u64, now_ms: u64, config: &GovernorConfig)
        requires
            old(self)@.wf(),
        ensures
            final(self)@ == old(self)@.with_game_mode(pps, now_ms, *config),
            final(self)@.wf(),
    {
        if !config.game_mode_enabled {
            return ;
        }
        if pps > config.game_mode_pps_threshold {
            let was_in_game: bool = self.is_in_game(now_ms);
            let cooldown_ms: u128 = config.game_mode_cooldown_secs as u128 * 1000;
            let until: u128 = now_ms as u128 + cooldown_ms;
            self.game_mode_until = Some(
                if until > u64::MAX as u128 {
                    u64::MAX
                } else {
                    until as u64
                },
            );
            if config.game_mode_freeze_cake && !was_in_game {
                self.tc_manager.enter_game_mode();
            }
        } else if self.game_mode_until.is_some() && !self.is_in_game(now_ms) {
            self.game_mode_until = None;
            if config.game_mode_freeze_cake {
                self.tc_manager.exit_game_mode();
            }
        }
    }

    /// Takes a reading of the byte counters and passes the measured
    /// throughput to the estimator.
    pub fn update_throughput_estimate(
        &mut self,
        rx_bytes: Option<u64>,
        tx_bytes: Option<u64>,
        now_ms: u64,
    )
        requires
            old(self)@.wf(),
        ensures
            final(self)@ == old(self)@.with_throughput(rx_bytes, tx_bytes, now_ms),
            final(self)@.wf(),
    {
        let rx: u64 = match rx_bytes {
            Some(v) => v,
            None => 0,
        };
        let tx: u64 = match tx_bytes {
            Some(v) => v,
            None => 0,
        };
        match self.last_stats_time {
            Some(then) => {
                if now_ms > then && now_ms - then > MIN_THROUGHPUT_WINDOW_MS {
                    let elapsed: u128 = (now_ms - then) as u128;
                    let rx_delta: u128 = if rx >= self.last_rx_bytes {
                        (rx - self.last_rx_bytes) as u128
                    } else {
                        0
                    };
                    let tx_delta: u128 = if tx >= self.last_tx_bytes {
                        (tx - self.last_tx_bytes) as u128
                    } else {
                        0
                    };
                    let bps: u128 = (rx_delta + tx_delta) * 1000 / elapsed;
                    if bps > MIN_THROUGHPUT_BPS as u128 {
                        let capped: u64 = if bps > u64::MAX as u128 {
                            u64::MAX
                        } else {
                            bps as u64
                        };
                        self.tc_manager.update_throughput(capped);
                    }
                }
            },
            None => {},
        }
        self.last_rx_bytes = rx;
        self.last_tx_bytes = tx;
        self.last_stats_time = Some(now_ms);
    }

    /// Feeds the bitrates of a tick to the estimator. Returns the bandwidth
    /// to shape to where the estimator asks for an application.
    pub fn update_bandwidth(
        &mut self,
        primary_kbit: u32,
        secondary_kbit: Option<u32>,
        overhead_permille: u32,
    ) -> (shape_to: Option<u32>)
        requires
            old(self)@.wf(),
        ensures
            (final(self)@, shape_to) == old(self)@.with_bandwidth(
                primary_kbit,
                secondary_kbit,
                overhead_permille,
            ),
            final(self)@.wf(),
    {
        let secondary: u32 = match secondary_kbit {
            Some(v) => v,
            None => 0,
        };
        let primary_ok: bool = primary_kbit >= MIN_VALID_KBIT;
        let secondary_ok: bool = secondary >= MIN_VALID_KBIT;
        let effective: u32 = if primary_ok && secondary_ok {
            ((primary_kbit as u64 + secondary as u64) / 2) as u32
        } else if primary_ok {
            primary_kbit
        } else if secondary_ok {
            secondary
        } else {
            0
        };
        let rate_mbit: u32 = if effective > 0 {
            effective / 1000
        } else {
            match self.last_good_bitrate {
                Some(last) => last / 1000,
                None => DEFAULT_MBIT,
            }
        };
        if effective > 0 {
            self.last_good_bitrate = Some(effective);
        }
        let apply: bool = self.tc_manager.update_bandwidth(scale(rate_mbit, overhead_permille));
        self.bandwidth_valid = true;
        if apply {
            Some(self.tc_manager.get_target_bandwidth())
        } else {
            None
        }
    }

    /// Band steering for one tick. Returns whether a scan is to be
    /// requested.
    pub fn update_steering(
        &mut self,
        active_ap: &Option<AccessPoint>,
        visible_aps: &Option<Vec<AccessPoint>>,
        wifi: &WifiConfig,
        hysteresis_ticks: u32,
    ) -> (scan: bool)
        ensures
            (final(self)@, scan) == old(self)@.with_steering(
                *active_ap,
                *visible_aps,
                *wifi,
                hysteresis_ticks,
            ),
            old(self)@.wf() ==> final(self)@.wf(),
    {
        let current: &AccessPoint = match active_ap {
            Some(ap) => ap,
            None => {
                return false;
            },
        };
        let visible: &Vec<AccessPoint> = match visible_aps {
            Some(v) => v,
            None => {
                return false;
            },
        };
        if visible.len() == 0 {
            return false;
        }
        let current_score: i64 = current.wide_score(wifi.band_bias_5ghz, wifi.band_bias_6ghz);
        let best: Option<(&String, i64)> = match best_candidate(current, visible, wifi) {
            Some(at) => Some(
                (&visible[at].bssid, visible[at].wide_score(wifi.band_bias_5ghz, wifi.band_bias_6ghz)),
            ),
            None => None,
        };
        let scan: bool = steer(&mut self.roam_candidate, best, current_score, hysteresis_ticks);
        if scan {
            self.last_good_bitrate = None;
            self.bandwidth_valid = false;
        }
        scan
    }

    /// One tick for this interface: runs every control algorithm in its
    /// order and returns what is to be done.
    pub fn tick(
        &mut self,
        obs: &DeviceObservation,
        ctx: &TickContext,
        config: &GovernorConfig,
        wifi: &WifiConfig,
    ) -> (actions: InterfaceActions)
        requires
            old(self)@.wf(),
        ensures
            (final(self)@, actions) == old(self)@.ticked(*obs, *ctx, *config, *wifi),
            final(self)@.wf(),
    {
        let pps: u64 = self.pps_monitor.sample(obs.packets, ctx.now_ms);
        self.update_game_mode(pps, ctx.now_ms, config);
        let gaming: bool = self.is_in_game(ctx.now_ms);
        let mut shape_to: Option<u32> = None;
        if config.breathing_cake_enabled {
            self.update_throughput_estimate(obs.rx_bytes, obs.tx_bytes, ctx.now_ms);
            shape_to = self.update_bandwidth(
                obs.device.bitrate,
                obs.link_bitrate_kbit,
                config.cake_overhead_permille,
            );
        }
        let mut coalescing: Option<bool> = None;
        if config.cpu_coalescing_enabled {
            let wanted: bool = !gaming || ctx.cpu_load > config.cpu_coalescing_threshold_permille;
            coalescing = self.coalescing.evaluate(wanted);
        }
        let idle: bool = ctx.on_battery && !gaming && !(pps > ACTIVITY_PPS);
        let mut power_save: Option<bool> = None;
        match ctx.power_mode {
            PowerSaveMode::Off => {
                if !applied_is(self.power_save.current(), false) {
                    self.power_save.set_applied(Some(false));
                    power_save = Some(false);
                }
            },
            PowerSaveMode::On => {
                if !applied_is(self.power_save.current(), true) {
                    self.power_save.set_applied(Some(true));
                    power_save = Some(true);
                }
            },
            PowerSaveMode::Adaptive => {
                power_save = self.power_save.evaluate(idle);
            },
        }
        let mut low_power_ethernet: Option<bool> = None;
        if obs.wired {
            low_power_ethernet = self.eee.evaluate(idle);
        }
        let mut request_scan: bool = false;
        if config.band_steering_enabled && !ctx.scan_suppressed {
            request_scan = self.update_steering(
                &obs.device.active_ap,
                &obs.visible_aps,
                wifi,
                config.roam_hysteresis_ticks,
            );
        }
        InterfaceActions { shape_to, coalescing, power_save, low_power_ethernet, request_scan }
    }

    /// Records that the interface was shaped to `mbit`.
    pub fn shaping_applied(&mut self, mbit: u32)
        ensures
            final(self)@ == (InterfaceModel {
                tc: EstimatorModel { last_bandwidth: Some(mbit), ..old(self)@.tc },
                ..old(self)@
            }),
            old(self)@.wf() ==> final(self)@.wf(),
    {
        self.tc_manager.set_last_applied(mbit);
    }

    /// Records that, after a reconnect, the interface was shaped to `mbit`
    /// without waiting for the estimator: `mbit` counts as applied and is fed
    /// to the estimator as its next sample.
    pub fn reconnect_shaped(&mut self, mbit: u32)
        requires
            old(self)@.wf(),
        ensures
            final(self)@ == old(self)@.reshaped(mbit),
            final(self)@.wf(),
    {
        self.tc_manager.set_last_applied(mbit);
        let _ = self.tc_manager.update_bandwidth(mbit);
        self.bandwidth_valid = true;
    }

    /// Forgets what the link was like: the cached bitrate, that the
    /// estimator was fed, and which power-save state is applied.
    pub fn clear_link_state(&mut self)
        ensures
            final(self)@ == old(self)@.cleared(),
            old(self)@.wf() ==> final(self)@.wf(),
    {
        self.last_good_bitrate = None;
        self.bandwidth_valid = false;
        self.power_save.set_applied(None);
    }
}

/// Whether `applied` is known to be `value`.
fn applied_is(applied: Option<bool>, value: bool) -> (same: bool)
    ensures
        same == (applied == Some(value)),
{
    match applied {
        Some(v) => v == value,
        None => false,
    }
}


/// Everything that was observed for one tick.
#[derive(Debug, Clone)]
pub struct TickInput {
    /// The time of the tick, in milliseconds of a monotonic clock.
    pub now_ms: u64,
    /// The cumulative CPU times, `None` where unreadable.
    pub cpu_times: Option<CpuTimes>,
    /// The entries of the power-supply directory.
    pub supplies: Vec<PowerSupply>,
    /// The wireless devices that the connectivity service reports.
    pub devices: Vec<DeviceObservation>,
}

/// Whether any of the devices is connected.
pub open spec fn any_connected(devices: Seq<DeviceObservation>) -> bool {
    exists|i: int|
        0 <= i < devices.len() && (#[trigger] devices[i]).device.state == DeviceState::Activated
}

/// The names of a list of interfaces.
pub open spec fn names_view(names: Seq<String>) -> Seq<Seq<char>> {
    Seq::new(names.len(), |i: int| names[i]@)
}

/// The states of a list of interfaces.
pub open spec fn states_view(states: Seq<InterfaceState>) -> Seq<InterfaceModel> {
    Seq::new(states.len(), |i: int| states[i]@)
}

/// The governor as a mathematical value.
pub struct GovernorModel {
    pub config: GovernorConfig,
    pub wifi: WifiConfig,
    pub power_mode: PowerSaveMode,
    pub device_type: DeviceType,
    pub cpu: CpuModel,
    /// The names of the interfaces seen so far, in the order in which they
    /// were first seen.
    pub names: Seq<Seq<char>>,
    /// The state of each of these interfaces.
    pub states: Seq<InterfaceModel>,
    /// Whether background scans are being suppressed.
    pub scan_suppress_active: bool,
}

impl GovernorModel {
    /// The invariant of the governor: exactly one state per interface name,
    /// and every part in order.
    pub open spec fn wf(self) -> bool {
        &&& self.names.len() == self.states.len()
        &&& self.names.no_duplicates()
        &&& self.cpu.wf()
        &&& forall|i: int| 0 <= i < self.states.len() ==> (#[trigger] self.states[i]).wf()
    }

    /// The start of a tick: the CPU load is sampled and the scan-suppression
    /// flag follows whether any device is connected.
    pub open spec fn started(self, input: TickInput) -> GovernorModel {
        GovernorModel {
            cpu: self.cpu.sampled(input.cpu_times),
            scan_suppress_active: if self.config.scan_suppress {
                any_connected(input.devices@)
            } else {
                self.scan_suppress_active
            },
            ..self
        }
    }

    /// What holds for every device of a tick.
    pub open spec fn context(self, input: TickInput) -> TickContext {
        TickContext {
            now_ms: input.now_ms,
            cpu_load: average_of(self.started(input).cpu.samples),
            on_battery: power_save_wanted(self.device_type, power_source_of(input.supplies@)),
            power_mode: self.power_mode,
            scan_suppressed: self.started(input).scan_suppress_active,
        }
    }

    /// The governor with a state for the interface `name`: as it is where
    /// the name is known, with a fresh state at the end where it is new.
    pub open spec fn knowing(self, name: Seq<char>) -> GovernorModel {
        if self.names.contains(name) {
            self
        } else {
            GovernorModel {
                names: self.names.push(name),
                states: self.states.push(InterfaceModel::fresh(self.config)),
                ..self
            }
        }
    }

    /// One connected device processed: its interface's state, made where the
    /// interface is new, takes one tick.
    pub open spec fn with_device(self, obs: DeviceObservation, ctx: TickContext) -> (
        GovernorModel,
        InterfaceActions,
    ) {
        let known = self.knowing(obs.device.interface@);
        let at = known.names.index_of(obs.device.interface@);
        let (state, actions) = known.states[at].ticked(obs, ctx, self.config, self.wifi);
        (GovernorModel { states: known.states.update(at, state), ..known }, actions)
    }

    /// The governor after the first `n` devices were processed, and what is
    /// to be done for each connected one among them, with its place in
    /// `devices`. Only devices whose connection is activated are processed.
    pub open spec fn after_devices(
        self,
        devices: Seq<DeviceObservation>,
        ctx: TickContext,
        n: int,
    ) -> (GovernorModel, Seq<(usize, InterfaceActions)>)
        decreases n,
    {
        if n <= 0 {
            (self, Seq::empty())
        } else {
            let (before, done) = self.after_devices(devices, ctx, n - 1);
            if devices[n - 1].device.state == DeviceState::Activated {
                let (after, actions) = before.with_device(devices[n - 1], ctx);
                (after, done.push(((n - 1) as usize, actions)))
            } else {
                (before, done)
            }
        }
    }

    /// One tick: the next governor, and what is to be done for each
    /// connected device.
    pub open spec fn ticked(self, input: TickInput) -> (
        GovernorModel,
        Seq<(usize, InterfaceActions)>,
    ) {
        self.started(input).after_devices(
            input.devices@,
            self.context(input),
            input.devices@.len() as int,
        )
    }
}

/// The governor: owns the decision state of every interface and runs the
/// control algorithms over it once per tick.
pub struct Governor {
    config: GovernorConfig,
    wifi_config: WifiConfig,
    power_config: PowerConfig,
    power_mode: PowerSaveMode,
    cpu_monitor: CpuMonitor,
    power_manager: PowerManager,
    interface_names: Vec<String>,
    interface_states: Vec<InterfaceState>,
    scan_suppress_active: bool,
}

impl View for Governor {
    type V = GovernorModel;

    closed spec fn view(&self) -> GovernorModel {
        GovernorModel {
            config: self.config,
            wifi: self.wifi_config,
            power_mode: self.power_mode,
            device_type: self.power_manager.kind(),
            cpu: self.cpu_monitor@,
            names: names_view(self.interface_names@),
            states: states_view(self.interface_states@),
            scan_suppress_active: self.scan_suppress_active,
        }
    }
}

impl Governor {
    /// A governor that has seen no interface yet.
    pub fn new(
        config: GovernorConfig,
        wifi_config: WifiConfig,
        power_config: PowerConfig,
        power_manager: PowerManager,
    ) -> (g: Self)
        ensures
            g@ == (GovernorModel {
                config,
                wifi: wifi_config,
                power_mode: mode_of(vstd::utf8::encode_utf8(power_config.wlan_power_save@)),
                device_type: power_manager.kind(),
                cpu: CpuModel {
                    last_times: None,
                    samples: Seq::empty(),
                    window_size: config.cpu_avg_window_size as nat,
                },
                names: Seq::empty(),
                states: Seq::empty(),
                scan_suppress_active: false,
            }),
            g@.wf(),
    {
        let power_mode = power_save_mode(power_config.wlan_power_save.as_str());
        let cpu_monitor = CpuMonitor::new(config.cpu_avg_window_size);
        let g = Governor {
            config,
            wifi_config,
            power_config,
            power_mode,
            cpu_monitor,
            power_manager,
            interface_names: Vec::new(),
            interface_states: Vec::new(),
            scan_suppress_active: false,
        };
        assert(g@.names =~= Seq::<Seq<char>>::empty());
        assert(g@.states =~= Seq::<InterfaceModel>::empty());
        g
    }

    /// Whether background scans are being suppressed.
    pub fn scan_suppress_active(&self) -> (active: bool)
        ensures
            active == self@.scan_suppress_active,
    {
        self.scan_suppress_active
    }

    /// The state of the interface at `at` among `interfaces()`.
    pub fn state(&self, at: usize) -> (state: &InterfaceState)
        requires
            self@.wf(),
            at < self@.states.len(),
        ensures
            state@ == self@.states[at as int],
    {
        assert(self.interface_states@.len() == self@.states.len());
        &self.interface_states[at]
    }

    /// The names of the interfaces seen so far.
    pub fn interfaces(&self) -> (names: &Vec<String>)
        ensures
            names_view(names@) == self@.names,
    {
        &self.interface_names
    }

    /// The place of the state of `name`, which is made where the interface is
    /// new.
    fn state_index(&mut self, name: &String) -> (at: usize)
        requires
            old(self)@.wf(),
        ensures
            final(self)@ == old(self)@.knowing(name@),
            final(self)@.wf(),
            at < final(self)@.names.len(),
            at == final(self)@.names.index_of(name@),
            final(self).interface_states@.len() == final(self)@.states.len(),
    {
        let mut i: usize = 0;
        while i < self.interface_names.len()
            invariant
                *self == *old(self),
                self@.wf(),
                self.interface_states@.len() == self@.states.len(),
                i <= self.interface_names@.len(),
                forall|j: int| 0 <= j < i ==> self.interface_names@[j]@ != name@,
            decreases self.interface_names@.len() - i,
        {
            if self.interface_names[i] == *name {
                proof {
                    let names = self@.names;
                    assert(names[i as int] == name@);
                    let found = names.index_of(name@);
                    assert(names.contains(name@));
                    assert(0 <= found < names.len() && names[found] == name@);
                    assert(found == i);
                }
                return i;
            }
            i += 1;
        }
        proof {
            let names = self@.names;
            assert(!names.contains(name@)) by {
                if names.contains(name@) {
                    let k = choose|k: int| 0 <= k < names.len() && names[k] == name@;
                    assert(self.interface_names@[k]@ == name@);
                }
            }
        }
        let ghost before = self@;
        self.interface_names.push(name.clone());
        self.interface_states.push(InterfaceState::new(&self.config));
        proof {
            let after = self@;
            assert(after.names =~= before.names.push(name@));
            assert(after.states =~= before.states.push(InterfaceModel::fresh(self.config)));
            let at = self.interface_names@.len() - 1;
            assert(after.names[at] == name@);
            assert(after.names.contains(name@));
            let found = after.names.index_of(name@);
            assert(0 <= found < after.names.len() && after.names[found] == name@);
            assert(found == at) by {
                if found < at {
                    assert(before.names[found] == name@);
                }
            }
            assert(after.names.no_duplicates()) by {
                assert forall|a: int, b: int|
                    0 <= a < after.names.len() && 0 <= b < after.names.len() && a
                        != b implies after.names[a] != after.names[b] by {
                    if a < at && b < at {
                        assert(before.names[a] != before.names[b]);
                    } else if a < at {
                        assert(before.names[a] == self.interface_names@[a]@);
                    } else if b < at {
                        assert(before.names[b] == self.interface_names@[b]@);
                    }
                }
            }
        }
        self.interface_names.len() - 1
    }

    /// One tick. Samples the CPU load, sets the scan-suppression flag, and
    /// lets the state of every connected device take its tick, in the order
    /// of `input.devices`. Returns, for each connected device, its place in
    /// `input.devices` and what is to be done for it.
    pub fn tick(&mut self, input: &TickInput) -> (actions: Vec<(usize, InterfaceActions)>)
        requires
            old(self)@.wf(),
        ensures
            (final(self)@, actions@) == old(self)@.ticked(*input),
            final(self)@.wf(),
    {
        let cpu_load: u32 = self.cpu_monitor.sample(input.cpu_times);
        let on_battery: bool = self.power_manager.should_enable_power_save(&input.supplies);
        if self.config.scan_suppress {
            self.scan_suppress_active = has_connection(&input.devices);
        }
        let ctx = TickContext {
            now_ms: input.now_ms,
            cpu_load,
            on_battery,
            power_mode: self.power_mode,
            scan_suppressed: self.scan_suppress_active,
        };
        let ghost start = self@;
        assert(start == old(self)@.started(*input));
        assert(ctx == old(self)@.context(*input));
        let mut actions: Vec<(usize, InterfaceActions)> = Vec::new();
        let mut i: usize = 0;
        while i < input.devices.len()
            invariant
                i <= input.devices@.len(),
                self@.wf(),
                self@.config == start.config,
                self@.wifi == start.wifi,
                self.interface_states@.len() == self@.states.len(),
                (self@, actions@) == start.after_devices(input.devices@, ctx, i as int),
            decreases input.devices@.len() - i,
        {
            let obs = &input.devices[i];
            if is_activated(obs.device.state) {
                let at: usize = self.state_index(&obs.device.interface);
                let ghost known = self@;
                let ghost old_states = self.interface_states@;
                assert(known.states[at as int] == old_states[at as int]@);
                let done: InterfaceActions = self.interface_states[at].tick(
                    obs,
                    &ctx,
                    &self.config,
                    &self.wifi_config,
                );
                proof {
                    let new_states = self.interface_states@;
                    assert(self@.states =~= known.states.update(at as int, new_states[at as int]@));
                    assert(self@.names =~= known.names);
                }
                actions.push((i, done));
            }
            i += 1;
        }
        actions
    }

    /// Records that the interface at `at` among `interfaces()` was shaped to
    /// `mbit`.
    pub fn shaping_applied(&mut self, at: usize, mbit: u32)
        requires
            old(self)@.wf(),
            at < old(self)@.states.len(),
        ensures
            final(self)@ == (GovernorModel {
                states: old(self)@.states.update(
                    at as int,
                    InterfaceModel {
                        tc: EstimatorModel {
                            last_bandwidth: Some(mbit),
                            ..old(self)@.states[at as int].tc
                        },
                        ..old(self)@.states[at as int]
                    },
                ),
                ..old(self)@
            }),
            final(self)@.wf(),
    {
        assert(self.interface_states@.len() == self@.states.len());
        let ghost before = self@;
        assert(before.states[at as int] == self.interface_states@[at as int]@);
        self.interface_states[at].shaping_applied(mbit);
        proof {
            assert(self@.states =~= before.states.update(
                at as int,
                self.interface_states@[at as int]@,
            ));
            assert(self@.names =~= before.names);
        }
    }

    /// Answers a change of connectivity: every interface forgets what its
    /// link was like. Returns the conservative bandwidth, in Mbit/s, to
    /// which every known interface is to be shaped at once, before any new
    /// sample has arrived.
    pub fn handle_connection_event(&mut self) -> (mbit: u32)
        requires
            old(self)@.wf(),
        ensures
            final(self)@ == (GovernorModel {
                states: old(self)@.states.map_values(|s: InterfaceModel| s.cleared()),
                ..old(self)@
            }),
            final(self)@.wf(),
            mbit == scaled(DEFAULT_MBIT, old(self)@.config.cake_overhead_permille),
    {
        let ghost before = self@;
        let mut i: usize = 0;
        while i < self.interface_states.len()
            invariant
                i <= self.interface_states@.len(),
                self.interface_states@.len() == before.states.len(),
                self@.names == before.names,
                self@.config == before.config,
                self@.wifi == before.wifi,
                self@.power_mode == before.power_mode,
                self@.device_type == before.device_type,
                self@.cpu == before.cpu,
                self@.scan_suppress_active == before.scan_suppress_active,
                before.wf(),
                forall|j: int| 0 <= j < i ==> self@.states[j] == before.states[j].cleared(),
                forall|j: int| i <= j < before.states.len() ==> self@.states[j] == before.states[j],
            decreases self.interface_states@.len() - i,
        {
            let ghost here = self@;
            assert(here.states[i as int] == self.interface_states@[i as int]@);
            self.interface_states[i].clear_link_state();
            proof {
                assert forall|j: int| 0 <= j < i + 1 implies self@.states[j]
                    == before.states[j].cleared() by {
                    if j < i {
                        assert(self@.states[j] == here.states[j]);
                    }
                }
                assert forall|j: int| i + 1 <= j < before.states.len() implies self@.states[j]
                    == before.states[j] by {
                    assert(self@.states[j] == here.states[j]);
                }
                assert(self@.names =~= here.names);
            }
            i += 1;
        }
        proof {
            assert(self@.states =~= before.states.map_values(|s: InterfaceModel| s.cleared()));
        }
        scale(DEFAULT_MBIT, self.config.cake_overhead_permille)
    }

    /// Records that, after a reconnect, the interface at `at` among
    /// `interfaces()` was shaped to `mbit` at once.
    pub fn reconnect_shaped(&mut self, at: usize, mbit: u32)
        requires
            old(self)@.wf(),
            at < old(self)@.states.len(),
        ensures
            final(self)@ == (GovernorModel {
                states: old(self)@.states.update(
                    at as int,
                    old(self)@.states[at as int].reshaped(mbit),
                ),
                ..old(self)@
            }),
            final(self)@.wf(),
    {
        assert(self.interface_states@.len() == self@.states.len());
        let ghost before = self@;
        assert(before.states[at as int] == self.interface_states@[at as int]@);
        self.interface_states[at].reconnect_shaped(mbit);
        proof {
            assert(self@.states =~= before.states.update(
                at as int,
                self.interface_states@[at as int]@,
            ));
            assert(self@.names =~= before.names);
        }
    }

    /// Stops the governor: returns the interfaces from which shaping is to
    /// be removed, which are all that were ever seen.
    pub fn stop(&mut self) -> (names: &Vec<String>)
        ensures
            names_view(names@) == old(self)@.names,
            final(self)@ == old(self)@,
    {
        &self.interface_names
    }

    /// The place of `interface` among `interfaces()`, if it was seen.
    pub fn interface_index(&self, interface: &str) -> (at: Option<usize>)
        ensures
            match at {
                Some(i) => i < self@.names.len() && self@.names[i as int] == interface@,
                None => !self@.names.contains(interface@),
            },
    {
        let mut i: usize = 0;
        while i < self.interface_names.len()
            invariant
                i <= self.interface_names@.len(),
                forall|j: int| 0 <= j < i ==> self.interface_names@[j]@ != interface@,
            decreases self.interface_names@.len() - i,
        {
            if same_text(self.interface_names[i].as_str(), interface) {
                return Some(i);
            }
            i += 1;
        }
        proof {
            let names = self@.names;
            if names.contains(interface@) {
                let k = choose|k: int| 0 <= k < names.len() && names[k] == interface@;
                assert(self.interface_names@[k]@ == interface@);
            }
        }
        None
    }
}

/// The bandwidth, in Mbit/s, to shape a wired interface to: six tenths of
/// the link speed where that is known and not zero, else 200; never zero.
pub open spec fn wired_bandwidth(link_speed_mbps: Option<u32>) -> u32 {
    match link_speed_mbps {
        Some(speed) => if speed == 0 {
            200
        } else if speed * 600 / 1000 == 0 {
            1
        } else {
            (speed * 600 / 1000) as u32
        },
        None => 200,
    }
}

/// The bandwidth to shape a wired interface to, from its link speed in
/// Mbit/s, `None` where that is not known.
pub fn calculate_cake_bandwidth(link_speed_mbps: Option<u32>) -> (mbit: u32)
    ensures
        mbit == wired_bandwidth(link_speed_mbps),
        mbit >= 1,
{
    match link_speed_mbps {
        Some(speed) => {
            if speed == 0 {
                200
            } else {
                let share: u32 = scale(speed, 600);
                if share == 0 { 1 } else { share }
            }
        },
        None => 200,
    }
}

/// Whether a device's connection is activated.
fn is_activated(state: DeviceState) -> (activated: bool)
    ensures
        activated == (state == DeviceState::Activated),
{
    match state {
        DeviceState::Activated => true,
        _ => false,
    }
}

/// Whether any of the devices is connected.
fn has_connection(devices: &Vec<DeviceObservation>) -> (connected: bool)
    ensures
        connected == any_connected(devices@),
{
    let mut i: usize = 0;
    while i < devices.len()
        invariant
            i <= devices@.len(),
            forall|j: int|
                0 <= j < i ==> (#[trigger] devices@[j]).device.state != DeviceState::Activated,
        decreases devices@.len() - i,
    {
        if is_activated(devices[i].device.state) {
            return true;
        }
        i += 1;
    }
    false
}

} // verus!
