//! What holds of the governor's per-interface decisions over time.

use crate::config::structs::{GovernorConfig, WifiConfig};
use crate::network::governor::{
    expiry, in_game, DeviceObservation, InterfaceModel, TickContext,
};
use vstd::prelude::*;

verus! {

/// While the estimator is frozen, feeding bitrates never asks for shaping.
pub proof fn lemma_frozen_never_shapes(
    s: InterfaceModel,
    primary_kbit: u32,
    secondary_kbit: Option<u32>,
    overhead_permille: u32,
)
    requires
        s.tc.frozen,
    ensures
        s.with_bandwidth(primary_kbit, secondary_kbit, overhead_permille).1.is_none(),
        s.with_bandwidth(primary_kbit, secondary_kbit, overhead_permille).0.tc == s.tc,
{
}

/// A tick on which the packet rate exceeds the threshold never asks for
/// shaping, where game mode is detected and freezes the estimator: the
/// estimator is frozen before the bitrates of that tick reach it.
pub proof fn lemma_game_tick_never_shapes(
    s: InterfaceModel,
    obs: DeviceObservation,
    ctx: TickContext,
    config: GovernorConfig,
    wifi: WifiConfig,
)
    requires
        config.game_mode_enabled,
        config.game_mode_freeze_cake,
        s.pps.sampled(obs.packets, ctx.now_ms).current_pps > config.game_mode_pps_threshold,
        !in_game(s.game_mode_until, ctx.now_ms) || s.tc.frozen,
    ensures
        s.ticked(obs, ctx, config, wifi).1.shape_to.is_none(),
        s.ticked(obs, ctx, config, wifi).0.tc.frozen,
        s.ticked(obs, ctx, config, wifi).0.tc.window == s.tc.window,
{
    let s0 = InterfaceModel { pps: s.pps.sampled(obs.packets, ctx.now_ms), ..s };
    let s1 = s0.with_game_mode(s0.pps.current_pps, ctx.now_ms, config);
    assert(s1.tc.frozen);
    if config.breathing_cake_enabled {
        let fed = s1.with_throughput(obs.rx_bytes, obs.tx_bytes, ctx.now_ms);
        assert(fed.tc.frozen);
        lemma_frozen_never_shapes(
            fed,
            obs.device.bitrate,
            obs.link_bitrate_kbit,
            config.cake_overhead_permille,
        );
    }
}

/// Game mode starts on the very tick on which the packet rate first exceeds
/// the threshold, lasts until the cooldown after that tick has passed (as far
/// as the clock reaches), and freezes the estimator where freezing is
/// configured.
pub proof fn lemma_game_mode_activates(
    s: InterfaceModel,
    pps: u64,
    now_ms: u64,
    config: GovernorConfig,
)
    requires
        config.game_mode_enabled,
        pps > config.game_mode_pps_threshold,
    ensures
        s.with_game_mode(pps, now_ms, config).game_mode_until == Some(
            expiry(now_ms, config.game_mode_cooldown_secs),
        ),
        forall|later: u64|
            later < now_ms + config.game_mode_cooldown_secs * 1000 && later < u64::MAX
                ==> #[trigger] in_game(
                s.with_game_mode(pps, now_ms, config).game_mode_until,
                later,
            ),
        config.game_mode_freeze_cake && !in_game(s.game_mode_until, now_ms) ==> s.with_game_mode(
            pps,
            now_ms,
            config,
        ).tc.frozen,
{
}

/// A packet rate at or below the threshold never starts game mode.
pub proof fn lemma_quiet_never_activates(
    s: InterfaceModel,
    pps: u64,
    now_ms: u64,
    config: GovernorConfig,
)
    requires
        pps <= config.game_mode_pps_threshold,
        !in_game(s.game_mode_until, now_ms),
    ensures
        !in_game(s.with_game_mode(pps, now_ms, config).game_mode_until, now_ms),
        !s.tc.frozen ==> !s.with_game_mode(pps, now_ms, config).tc.frozen,
{
}

/// The state after quiet samples, each a packet rate and the time at which
/// it was taken, went through game-mode detection in order.
pub open spec fn after_samples(
    s: InterfaceModel,
    samples: Seq<(u64, u64)>,
    config: GovernorConfig,
) -> InterfaceModel
    decreases samples.len(),
{
    if samples.len() == 0 {
        s
    } else {
        after_samples(s, samples.drop_last(), config).with_game_mode(
            samples.last().0,
            samples.last().1,
            config,
        )
    }
}

/// Game mode stays active after the packet rate has dropped: samples at or
/// below the threshold, taken before the expiry, leave the expiry and the
/// estimator as they are.
pub proof fn lemma_game_mode_lasts(
    s: InterfaceModel,
    samples: Seq<(u64, u64)>,
    config: GovernorConfig,
    until: u64,
)
    requires
        s.game_mode_until == Some(until),
        forall|i: int|
            0 <= i < samples.len() ==> (#[trigger] samples[i]).0 <= config.game_mode_pps_threshold
                && samples[i].1 < until,
    ensures
        after_samples(s, samples, config) == s,
        forall|i: int|
            0 <= i < samples.len() ==> in_game(
                after_samples(s, samples, config).game_mode_until,
                (#[trigger] samples[i]).1,
            ),
    decreases samples.len(),
{
    if samples.len() > 0 {
        let front = samples.drop_last();
        assert forall|i: int| 0 <= i < front.len() implies (#[trigger] front[i]).0
            <= config.game_mode_pps_threshold && front[i].1 < until by {
            assert(front[i] == samples[i]);
        }
        lemma_game_mode_lasts(s, front, config, until);
    }
}

/// Game mode ends once the cooldown has passed without renewal: the first
/// quiet sample at or after the expiry clears it and releases the estimator,
/// with nothing pending.
pub proof fn lemma_game_mode_expires(
    s: InterfaceModel,
    pps: u64,
    now_ms: u64,
    config: GovernorConfig,
    until: u64,
)
    requires
        config.game_mode_enabled,
        s.game_mode_until == Some(until),
        pps <= config.game_mode_pps_threshold,
        now_ms >= until,
    ensures
        s.with_game_mode(pps, now_ms, config).game_mode_until.is_none(),
        config.game_mode_freeze_cake ==> !s.with_game_mode(pps, now_ms, config).tc.frozen,
        config.game_mode_freeze_cake && s.tc.frozen ==> s.with_game_mode(
            pps,
            now_ms,
            config,
        ).tc.pending.is_none() && s.with_game_mode(pps, now_ms, config).tc.stable_ticks == 0,
{
}

} // verus!
