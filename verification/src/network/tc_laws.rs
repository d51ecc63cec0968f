//! What holds of the bandwidth estimator over whole sample sequences.

use crate::network::tc::{
    effective_sample, is_significant, lemma_sorted_samples, median_of, sample_order, slide,
    sorted_samples,
    target_bandwidth, warm_up_samples, EstimatorModel,
};
use vstd::prelude::*;
use vstd::seq_lib::{to_multiset_build, to_multiset_remove};

verus! {

/// The stream that holds `sample` `n` times.
pub open spec fn constant_stream(sample: u32, n: nat) -> Seq<u32> {
    Seq::new(n, |i: int| sample)
}

/// The number of samples after which a fresh estimator first applies a
/// constant stream: the warm-up, then the hysteresis for an increase.
pub open spec fn first_apply_tick(window_size: nat, ticks_up: u32) -> nat {
    let ticks = if ticks_up > 1 { ticks_up as nat } else { 1 };
    (warm_up_samples(window_size) + ticks - 1) as nat
}

/// The median of a window whose samples are all equal is that sample.
pub proof fn lemma_median_constant(window: Seq<u32>, sample: u32)
    requires
        window.len() > 0,
        forall|i: int| 0 <= i < window.len() ==> window[i] == sample,
    ensures
        median_of(window) == sample,
{
    lemma_sorted_samples(window);
    let t = sorted_samples(window);
    assert forall|i: int| 0 <= i < t.len() implies t[i] == sample by {
        assert(window.contains(t[i]));
    }
}

/// A sequence of equal samples holds that sample as often as it is long.
proof fn lemma_count_constant(s: Seq<u32>, sample: u32)
    requires
        forall|i: int| 0 <= i < s.len() ==> s[i] == sample,
    ensures
        s.to_multiset().count(sample) == s.len(),
    decreases s.len(),
{
    broadcast use vstd::multiset::group_multiset_axioms;
    broadcast use vstd::seq_lib::group_to_multiset_ensures;

    if s.len() == 0 {
        assert(s.to_multiset().len() == 0);
    } else {
        lemma_count_constant(s.drop_last(), sample);
        assert(s =~= s.drop_last().push(sample));
        to_multiset_build(s.drop_last(), sample);
    }
}

/// A sequence with two places that hold something else than `sample` holds
/// `sample` at most as often as it has other places.
proof fn lemma_count_two_others(s: Seq<u32>, sample: u32, a: int, b: int)
    requires
        0 <= a < b < s.len(),
        s[a] != sample,
        s[b] != sample,
    ensures
        s.to_multiset().count(sample) <= s.len() - 2,
{
    broadcast use vstd::multiset::group_multiset_axioms;
    broadcast use vstd::seq_lib::group_to_multiset_ensures;

    let s1 = s.remove(b);
    to_multiset_remove(s, b);
    let s2 = s1.remove(a);
    to_multiset_remove(s1, a);
    assert(s1[a] == s[a]);
    assert(s2.to_multiset().count(sample) == s.to_multiset().count(sample));
    assert(s2.to_multiset().len() == s2.len());
}

/// The median rejects a single outlier: in a window of at least three samples
/// of which all but one are equal, the median is the value of the others.
pub proof fn lemma_median_rejects_outlier(window: Seq<u32>, sample: u32, outlier_at: int)
    requires
        window.len() >= 3,
        0 <= outlier_at < window.len(),
        forall|i: int| 0 <= i < window.len() && i != outlier_at ==> window[i] == sample,
    ensures
        median_of(window) == sample,
{
    broadcast use vstd::multiset::group_multiset_axioms;
    broadcast use vstd::seq_lib::group_to_multiset_ensures;

    lemma_sorted_samples(window);
    let t = sorted_samples(window);
    let n = window.len() as int;
    let rest = window.remove(outlier_at);
    to_multiset_remove(window, outlier_at);
    lemma_count_constant(rest, sample);
    assert(window.to_multiset().count(sample) >= n - 1);
    assert forall|j: int| 1 <= j < n - 1 implies t[j] == sample by {
        if t[j] != sample {
            if t[j] < sample {
                assert(sample_order()(t[j - 1], t[j]));
                lemma_count_two_others(t, sample, j - 1, j);
            } else {
                assert(sample_order()(t[j], t[j + 1]));
                lemma_count_two_others(t, sample, j, j + 1);
            }
        }
    }
    let mid = n / 2;
    assert(1 <= mid < n - 1);
    if n % 2 == 0 {
        assert(1 <= mid - 1);
    }
}

/// While frozen, no sample sequence changes the estimator or makes it ask for
/// an application.
pub proof fn lemma_frozen_never_applies(s: EstimatorModel, samples: Seq<u32>)
    requires
        s.frozen,
    ensures
        s.observe_all(samples) == s,
        forall|i: int|
            0 <= i < samples.len() ==> !(#[trigger] s.observe_all(samples.take(i))).observe(
                samples[i],
            ).1,
    decreases samples.len(),
{
    if samples.len() > 0 {
        lemma_frozen_never_applies(s, samples.drop_last());
    }
    assert forall|i: int| 0 <= i < samples.len() implies !(#[trigger] s.observe_all(
        samples.take(i),
    )).observe(samples[i]).1 by {
        if i < samples.len() {
            lemma_frozen_never_applies(s, samples.take(i));
        }
    }
}

/// The state in the middle of an accumulation: after `j` qualifying samples in
/// one direction, none of which fired, the pending change has been seen `j`
/// times.
proof fn lemma_accumulating(s: EstimatorModel, samples: Seq<u32>, up: bool, j: int)
    requires
        s.wf(),
        s.pending.is_none(),
        0 <= j < samples.len(),
        j < s.required_ticks(up) || j == 0,
        forall|i: int|
            0 <= i < samples.len() ==> (#[trigger] s.observe_all(samples.take(i))).qualifies(
                samples[i],
                up,
            ),
    ensures
        s.observe_all(samples.take(j)).wf(),
        j == 0 ==> s.observe_all(samples.take(j)).pending.is_none(),
        j > 0 ==> s.observe_all(samples.take(j)).pending.is_some(),
        j > 0 ==> s.observe_all(samples.take(j)).pending_up == up,
        s.observe_all(samples.take(j)).stable_ticks == j,
        s.observe_all(samples.take(j)).ticks_up == s.ticks_up,
        s.observe_all(samples.take(j)).ticks_down == s.ticks_down,
        j > 0 ==> !s.observe_all(samples.take(j - 1)).observe(samples[j - 1]).1,
    decreases j,
{
    if j == 0 {
        assert(samples.take(0) =~= Seq::<u32>::empty());
    } else {
        lemma_accumulating(s, samples, up, j - 1);
        let prev = s.observe_all(samples.take(j - 1));
        assert(samples.take(j).drop_last() =~= samples.take(j - 1));
        assert(samples.take(j).last() == samples[j - 1]);
        assert(prev.qualifies(samples[j - 1], up));
        lemma_one_direction(prev, samples[j - 1], up);
    }
}

/// A sample qualifies in at most one direction.
proof fn lemma_one_direction(s: EstimatorModel, phy_rate_mbit: u32, up: bool)
    requires
        s.qualifies(phy_rate_mbit, up),
    ensures
        !s.qualifies(phy_rate_mbit, !up),
        s.qualifies(phy_rate_mbit, true) == up,
{
}

/// Hysteresis is exact: starting with nothing pending, a run of samples that
/// each qualify in one direction makes the estimator ask for an application on
/// the sample that completes the required count for that direction (on the
/// first one where the count is zero), and on none before it.
pub proof fn lemma_hysteresis_exact(s: EstimatorModel, samples: Seq<u32>, up: bool)
    requires
        s.wf(),
        s.pending.is_none(),
        samples.len() >= 1,
        samples.len() == s.required_ticks(up) || (samples.len() == 1 && s.required_ticks(up)
            == 0),
        forall|i: int|
            0 <= i < samples.len() ==> (#[trigger] s.observe_all(samples.take(i))).qualifies(
                samples[i],
                up,
            ),
    ensures
        forall|i: int|
            0 <= i < samples.len() - 1 ==> !(#[trigger] s.observe_all(samples.take(i))).observe(
                samples[i],
            ).1,
        s.observe_all(samples.take(samples.len() - 1)).observe(samples.last()).1,
{
    let n = samples.len() as int;
    assert forall|i: int| 0 <= i < n - 1 implies !(#[trigger] s.observe_all(
        samples.take(i),
    )).observe(samples[i]).1 by {
        lemma_accumulating(s, samples, up, i + 1);
    }
    lemma_accumulating(s, samples, up, n - 1);
    let prev = s.observe_all(samples.take(n - 1));
    assert(prev.qualifies(samples[n - 1], up));
    lemma_one_direction(prev, samples[n - 1], up);
}

/// The window after a constant sample entered a constant window.
proof fn lemma_slide_constant(sample: u32, n: nat, capacity: nat)
    requires
        n <= capacity,
    ensures
        slide(constant_stream(sample, n), capacity, sample) == constant_stream(
            sample,
            if n + 1 <= capacity { n + 1 } else { capacity },
        ),
{
    let grown = constant_stream(sample, n).push(sample);
    if n + 1 <= capacity {
        assert(grown =~= constant_stream(sample, n + 1));
    } else {
        assert(grown.subrange(1, grown.len() as int) =~= constant_stream(sample, capacity));
    }
}

/// The state of a fresh estimator after `n` equal samples, as long as it has
/// not yet asked for an application.
pub open spec fn warming_state(s0: EstimatorModel, sample: u32, n: nat) -> EstimatorModel {
    let warm = warm_up_samples(s0.window_size);
    EstimatorModel {
        window: constant_stream(sample, if n <= s0.window_size { n } else { s0.window_size }),
        stable_ticks: if n < warm { 0u32 } else { (n - warm + 1) as u32 },
        pending: if n < warm { None } else { Some(sample) },
        pending_up: n >= warm,
        ..s0
    }
}

/// A fresh estimator that has not yet asked for an application is in its
/// warming state.
proof fn lemma_constant_prefix(s0: EstimatorModel, sample: u32, n: nat)
    requires
        s0 == EstimatorModel::fresh(
            s0.window_size,
            s0.threshold_mbit,
            s0.threshold_permille,
            s0.ticks_up,
            s0.ticks_down,
        ),
        s0.window_size >= 2,
        sample > 0,
        n < first_apply_tick(s0.window_size, s0.ticks_up),
    ensures
        s0.observe_all(constant_stream(sample, n)) == warming_state(s0, sample, n),
        n > 0 ==> !s0.observe_all(constant_stream(sample, (n - 1) as nat)).observe(sample).1,
    decreases n,
{
    if n == 0 {
        assert(constant_stream(sample, 0) =~= Seq::<u32>::empty());
        assert(warming_state(s0, sample, 0).window =~= s0.window);
        assert(warming_state(s0, sample, 0) == s0);
    } else {
        let m = (n - 1) as nat;
        lemma_constant_prefix(s0, sample, m);
        assert(constant_stream(sample, n).drop_last() =~= constant_stream(sample, m));
        let prev = warming_state(s0, sample, m);
        let kept = if m <= s0.window_size { m } else { s0.window_size };
        lemma_slide_constant(sample, kept, s0.window_size);
        let window = slide(prev.window, s0.window_size, sample);
        if window.len() > 0 {
            lemma_median_constant(window, sample);
        }
    }
}

/// A constant stream converges to one application at its own value: a fresh
/// estimator with a window of at least two samples stays silent until warm-up
/// and increase hysteresis are complete, asks for an application on exactly
/// that sample, with the sample itself (never less than 10 Mbit/s) as the
/// target, and, once the application is confirmed, never asks again while the
/// input stays the same. The last part needs that the confirmed value is not
/// itself a significant change from the sample.
pub proof fn lemma_constant_stream_converges(s0: EstimatorModel, sample: u32)
    requires
        s0 == EstimatorModel::fresh(
            s0.window_size,
            s0.threshold_mbit,
            s0.threshold_permille,
            s0.ticks_up,
            s0.ticks_down,
        ),
        s0.window_size >= 2,
        sample > 0,
    ensures
        forall|n: nat|
            n + 1 < first_apply_tick(s0.window_size, s0.ticks_up) ==> !(#[trigger] s0.observe_all(
                constant_stream(sample, n),
            )).observe(sample).1,
        s0.observe_all(
            constant_stream(sample, (first_apply_tick(s0.window_size, s0.ticks_up) - 1) as nat),
        ).observe(sample).1,
        target_bandwidth(
            s0.observe_all(
                constant_stream(sample, first_apply_tick(s0.window_size, s0.ticks_up)),
            ).window,
        ) == if sample > 10 { sample } else { 10u32 },
        !is_significant(
            sample,
            if sample > 10 { sample } else { 10u32 },
            s0.threshold_mbit,
            s0.threshold_permille,
        ) ==> forall|n: nat|
            !(#[trigger] s0.observe_all(
                constant_stream(sample, first_apply_tick(s0.window_size, s0.ticks_up)),
            ).confirmed().observe_all(constant_stream(sample, n))).observe(sample).1,
{
    let k = first_apply_tick(s0.window_size, s0.ticks_up);
    assert forall|n: nat| n + 1 < k implies !(#[trigger] s0.observe_all(
        constant_stream(sample, n),
    )).observe(sample).1 by {
        lemma_constant_prefix(s0, sample, n + 1);
        assert((n + 1 - 1) as nat == n);
    }
    let before = (k - 1) as nat;
    lemma_constant_prefix(s0, sample, before);
    let prev = warming_state(s0, sample, before);
    let kept = if before <= s0.window_size { before } else { s0.window_size };
    lemma_slide_constant(sample, kept, s0.window_size);
    let window = slide(prev.window, s0.window_size, sample);
    lemma_median_constant(window, sample);
    assert(prev.observe(sample).1);
    assert(constant_stream(sample, k).drop_last() =~= constant_stream(sample, before));
    let fired = s0.observe_all(constant_stream(sample, k));
    assert(fired == prev.observe(sample).0);
    assert(fired.window == window);
    let applied = if sample > 10 { sample } else { 10u32 };
    if !is_significant(sample, applied, s0.threshold_mbit, s0.threshold_permille) {
        assert forall|n: nat| !(#[trigger] fired.confirmed().observe_all(
            constant_stream(sample, n),
        )).observe(sample).1 by {
            lemma_settled(fired.confirmed(), sample, n);
            lemma_settled(fired.confirmed(), sample, n + 1);
            assert(constant_stream(sample, n + 1).drop_last() =~= constant_stream(sample, n));
        }
    }
}

/// An estimator whose warm window holds one value only, with nothing pending
/// and an applied value from which that value is no significant change.
pub open spec fn settled(s: EstimatorModel, sample: u32) -> bool {
    &&& !s.frozen
    &&& s.throughput.is_none()
    &&& s.pending.is_none()
    &&& s.stable_ticks == 0
    &&& s.window_size >= 2
    &&& warm_up_samples(s.window_size) <= s.window.len() <= s.window_size
    &&& forall|i: int| 0 <= i < s.window.len() ==> s.window[i] == sample
    &&& match s.last_bandwidth {
        Some(last) => !is_significant(sample, last, s.threshold_mbit, s.threshold_permille),
        None => false,
    }
}

/// A settled estimator stays settled, and silent, under its own value.
proof fn lemma_settled(s: EstimatorModel, sample: u32, n: nat)
    requires
        settled(s, sample),
        sample > 0,
    ensures
        settled(s.observe_all(constant_stream(sample, n)), sample),
        n > 0 ==> !s.observe_all(constant_stream(sample, (n - 1) as nat)).observe(sample).1,
    decreases n,
{
    if n == 0 {
        assert(constant_stream(sample, 0) =~= Seq::<u32>::empty());
    } else {
        let m = (n - 1) as nat;
        lemma_settled(s, sample, m);
        assert(constant_stream(sample, n).drop_last() =~= constant_stream(sample, m));
        let prev = s.observe_all(constant_stream(sample, m));
        let window = slide(prev.window, prev.window_size, sample);
        assert(effective_sample(prev.throughput, sample) == sample);
        assert forall|i: int| 0 <= i < window.len() implies window[i] == sample by {
        }
        lemma_median_constant(window, sample);
    }
}

} // verus!
