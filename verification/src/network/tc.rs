//! Bandwidth estimation for the shaping queue discipline.
//!
//! Noisy per-tick rate samples are turned into a rarely-changing shaping
//! target: a rolling median rejects single outliers, and an asymmetric
//! hysteresis lets the target shrink quickly and grow slowly.

use crate::system::command::{decimal_chars, to_decimal, ToolCommand};
use crate::text::{
    contains, contains_bytes, copy_range, find_subsequence, occurs_at, split_whitespace,
    tokens_of, words_view,
};
use std::collections::VecDeque;
use vstd::prelude::*;
use vstd::relations::{sorted_by, total_ordering};
use vstd::seq_lib::{lemma_sorted_unique, to_multiset_build, to_multiset_insert};
use vstd::string::{StringExecFns, StringSliceAdditionalSpecFns};

verus! {

/// The order by which samples are ranked.
pub open spec fn sample_order() -> spec_fn(u32, u32) -> bool {
    |a: u32, b: u32| a <= b
}

/// The samples of `s` in ascending order.
pub open spec fn sorted_samples(s: Seq<u32>) -> Seq<u32> {
    s.sort_by(sample_order())
}

/// The median of a non-empty sample sequence: the middle sample in ascending
/// order, or the mean of the two middle samples (rounded down) when the length
/// is even.
pub open spec fn median_of(s: Seq<u32>) -> u32
    recommends
        s.len() > 0,
{
    let t = sorted_samples(s);
    let mid = (t.len() / 2) as int;
    if t.len() % 2 == 0 {
        ((t[mid - 1] + t[mid]) / 2) as u32
    } else {
        t[mid]
    }
}

/// Sorting keeps the samples and their number, and puts them in ascending
/// order.
pub proof fn lemma_sorted_samples(s: Seq<u32>)
    ensures
        sorted_samples(s).len() == s.len(),
        sorted_samples(s).to_multiset() == s.to_multiset(),
        sorted_by(sorted_samples(s), sample_order()),
        forall|i: int| 0 <= i < s.len() ==> s.contains(#[trigger] sorted_samples(s)[i]),
{
    broadcast use vstd::seq_lib::group_to_multiset_ensures;

    assert(total_ordering(sample_order()));
    s.lemma_sort_by_ensures(sample_order());
    let t = sorted_samples(s);
    assert(t.to_multiset().len() == t.len());
    assert(s.to_multiset().len() == s.len());
    assert forall|i: int| 0 <= i < s.len() implies s.contains(#[trigger] t[i]) by {
        assert(t.contains(t[i]));
    }
}

/// An ascending copy of the window.
fn sorted_copy(window: &VecDeque<u32>) -> (out: Vec<u32>)
    ensures
        out@ == sorted_samples(window@),
{
    let mut out: Vec<u32> = Vec::new();
    let mut i: usize = 0;
    assert(window@.take(0) =~= Seq::<u32>::empty());
    while i < window.len()
        invariant
            i <= window@.len(),
            sorted_by(out@, sample_order()),
            out@.to_multiset() == window@.take(i as int).to_multiset(),
        decreases window@.len() - i,
    {
        let x: u32 = window[i];
        let mut pos: usize = 0;
        while pos < out.len() && out[pos] <= x
            invariant
                pos <= out@.len(),
                forall|k: int| 0 <= k < pos ==> out@[k] <= x,
            decreases out@.len() - pos,
        {
            pos += 1;
        }
        let ghost before = out@;
        out.insert(pos, x);
        proof {
            to_multiset_insert(before, pos as int, x);
            assert(window@.take(i + 1) =~= window@.take(i as int).push(x));
            to_multiset_build(window@.take(i as int), x);
            assert forall|a: int, b: int| 0 <= a < b < out@.len() implies #[trigger] sample_order()(
                out@[a],
                out@[b],
            ) by {
                if a < pos && b > pos {
                    assert(sample_order()(before[a], before[b - 1]));
                } else if a == pos {
                    if b - 1 > pos {
                        assert(sample_order()(before[pos as int], before[b - 1]));
                    }
                } else if b == pos {
                    assert(before[a] <= x);
                } else if a > pos {
                    assert(sample_order()(before[a - 1], before[b - 1]));
                } else if b < pos {
                    assert(sample_order()(before[a], before[b]));
                }
            }
        }
        i += 1;
    }
    proof {
        assert(window@.take(window@.len() as int) =~= window@);
        lemma_sorted_samples(window@);
        lemma_sorted_unique(out@, sorted_samples(window@), sample_order());
    }
    out
}


/// What feeds the rolling window: the PHY sample, capped by the measured
/// throughput (itself never taken below 50 Mbit/s) when one is known.
pub open spec fn effective_sample(throughput: Option<u32>, phy_rate_mbit: u32) -> u32 {
    match throughput {
        Some(t) => {
            let floor = if t > 50 { t } else { 50u32 };
            if phy_rate_mbit < floor { phy_rate_mbit } else { floor }
        },
        None => phy_rate_mbit,
    }
}

/// The number of samples the window must hold before any decision is taken:
/// half the window size, rounded up, and never fewer than two.
pub open spec fn warm_up_samples(window_size: nat) -> nat {
    let half = (window_size + 1) / 2;
    if half > 2 { half } else { 2 }
}

/// The window after `sample` entered it: the oldest sample leaves once the
/// capacity is exceeded.
pub open spec fn slide(window: Seq<u32>, capacity: nat, sample: u32) -> Seq<u32> {
    let grown = window.push(sample);
    if grown.len() > capacity {
        grown.subrange(1, grown.len() as int)
    } else {
        grown
    }
}

/// Whether `target` differs enough from the value last applied: by at least
/// `threshold_mbit` in absolute terms, or by at least `threshold_permille`
/// thousandths of the value last applied.
pub open spec fn is_significant(
    target: u32,
    last: u32,
    threshold_mbit: u32,
    threshold_permille: u32,
) -> bool {
    let diff = if target >= last { target - last } else { last - target };
    diff >= threshold_mbit || diff * 1000 >= threshold_permille * last
}

/// The bandwidth that a shaping command is given for a window: its median, or
/// 200 Mbit/s while the window is empty, and never less than 10 Mbit/s.
pub open spec fn target_bandwidth(window: Seq<u32>) -> u32 {
    let m = if window.len() > 0 { median_of(window) } else { 200u32 };
    if m > 10 { m } else { 10u32 }
}

/// The estimator as a mathematical value.
pub struct EstimatorModel {
    /// The bandwidth last confirmed as applied, in Mbit/s.
    pub last_bandwidth: Option<u32>,
    /// The rolling window, oldest sample first.
    pub window: Seq<u32>,
    /// The capacity of the rolling window.
    pub window_size: nat,
    /// Absolute change, in Mbit/s, from which a change is significant.
    pub threshold_mbit: u32,
    /// Relative change, in thousandths, from which a change is significant.
    pub threshold_permille: u32,
    /// Consecutive qualifying samples seen for the pending change.
    pub stable_ticks: u32,
    /// Qualifying samples required before an increase is applied.
    pub ticks_up: u32,
    /// Qualifying samples required before a decrease is applied.
    pub ticks_down: u32,
    /// The target proposed but not yet applied.
    pub pending: Option<u32>,
    /// Whether the pending change is an increase.
    pub pending_up: bool,
    /// Whether game mode has frozen the estimator.
    pub frozen: bool,
    /// The applied bandwidth at the moment the estimator was frozen.
    pub frozen_bandwidth: Option<u32>,
    /// The throughput-derived estimate, in Mbit/s.
    pub throughput: Option<u32>,
}

impl EstimatorModel {
    /// The estimator that `TcManager::new` builds.
    pub open spec fn fresh(
        window_size: nat,
        threshold_mbit: u32,
        threshold_permille: u32,
        ticks_up: u32,
        ticks_down: u32,
    ) -> EstimatorModel {
        EstimatorModel {
            last_bandwidth: None,
            window: Seq::empty(),
            window_size,
            threshold_mbit,
            threshold_permille,
            stable_ticks: 0,
            ticks_up,
            ticks_down,
            pending: None,
            pending_up: false,
            frozen: false,
            frozen_bandwidth: None,
            throughput: None,
        }
    }

    /// Qualifying samples required for a change in the given direction.
    pub open spec fn required_ticks(self, up: bool) -> u32 {
        if up { self.ticks_up } else { self.ticks_down }
    }

    /// The invariant of the estimator: the window respects its capacity, and a
    /// pending change has been seen at least once and fewer times than its
    /// direction requires.
    pub open spec fn wf(self) -> bool {
        &&& self.window.len() <= self.window_size
        &&& self.pending.is_none() ==> self.stable_ticks == 0
        &&& self.pending.is_some() ==> 1 <= self.stable_ticks < self.required_ticks(
            self.pending_up,
        )
    }

    /// Whether the window, after `phy_rate_mbit` entered it, is warm and its
    /// median is a significant change from the applied value in direction `up`.
    /// A first application counts as an increase.
    pub open spec fn qualifies(self, phy_rate_mbit: u32, up: bool) -> bool {
        let window = slide(
            self.window,
            self.window_size,
            effective_sample(self.throughput, phy_rate_mbit),
        );
        &&& !self.frozen
        &&& phy_rate_mbit != 0
        &&& window.len() >= warm_up_samples(self.window_size)
        &&& match self.last_bandwidth {
            Some(last) => is_significant(
                median_of(window),
                last,
                self.threshold_mbit,
                self.threshold_permille,
            ) && up == (median_of(window) >= last),
            None => up,
        }
    }

    /// One sample: the next state, and whether the shaping target is to be
    /// applied now.
    pub open spec fn observe(self, phy_rate_mbit: u32) -> (EstimatorModel, bool) {
        if self.frozen || phy_rate_mbit == 0 {
            (self, false)
        } else {
            let window = slide(
                self.window,
                self.window_size,
                effective_sample(self.throughput, phy_rate_mbit),
            );
            let fed = EstimatorModel { window, ..self };
            if self.qualifies(phy_rate_mbit, true) || self.qualifies(phy_rate_mbit, false) {
                let up = self.qualifies(phy_rate_mbit, true);
                let ticks = if self.pending.is_some() && self.pending_up == up {
                    self.stable_ticks + 1
                } else {
                    1
                };
                if ticks >= self.required_ticks(up) {
                    (EstimatorModel { stable_ticks: 0, pending: None, pending_up: up, ..fed }, true)
                } else {
                    (
                        EstimatorModel {
                            stable_ticks: ticks as u32,
                            pending: Some(median_of(window)),
                            pending_up: up,
                            ..fed
                        },
                        false,
                    )
                }
            } else if window.len() >= warm_up_samples(self.window_size) {
                (EstimatorModel { stable_ticks: 0, pending: None, ..fed }, false)
            } else {
                (fed, false)
            }
        }
    }

    /// The state after a throughput of `bytes_per_sec` was measured: the
    /// estimate becomes that throughput in Mbit/s, rounded down and at most
    /// `u32::MAX`; a measurement below one Mbit/s leaves it as it was.
    pub open spec fn measured(self, bytes_per_sec: u64) -> EstimatorModel {
        EstimatorModel {
            throughput: if bytes_per_sec / 125_000 == 0 {
                self.throughput
            } else if bytes_per_sec / 125_000 > u32::MAX {
                Some(u32::MAX)
            } else {
                Some((bytes_per_sec / 125_000) as u32)
            },
            ..self
        }
    }

    /// The state after the caller confirmed that the shaping target was
    /// applied.
    pub open spec fn confirmed(self) -> EstimatorModel {
        EstimatorModel { last_bandwidth: Some(target_bandwidth(self.window)), ..self }
    }

    /// The state after all of `samples` were observed in order, none of them
    /// confirmed as applied.
    pub open spec fn observe_all(self, samples: Seq<u32>) -> EstimatorModel
        decreases samples.len(),
    {
        if samples.len() == 0 {
            self
        } else {
            self.observe_all(samples.drop_last()).observe(samples.last()).0
        }
    }
}

/// Which set of options a shaping command carries.
#[derive(Debug, Clone, Copy, PartialEq, Eq, Structural)]
pub enum CakeAttempt {
    /// Differentiated services, per-host fairness, NAT awareness, DSCP
    /// washing and ACK filtering.
    Full,
    /// Best effort and NAT awareness only.
    Plain,
}

/// One step of shaping an interface.
#[derive(Debug, Clone)]
pub enum CakeStep {
    /// Run this command, and come back with whether it succeeded.
    Run(ToolCommand, CakeAttempt),
    /// The interface is shaped to this bandwidth, in Mbit/s.
    Applied(u32),
    /// No attempt succeeded.
    Failed,
}

/// The arguments of the command that shapes `interface` to `mbit` Mbit/s.
pub open spec fn cake_args(interface: Seq<char>, mbit: u32, attempt: CakeAttempt) -> Seq<
    Seq<char>,
> {
    let head = seq![
        "qdisc"@,
        "replace"@,
        "dev"@,
        interface,
        "root"@,
        "cake"@,
        "bandwidth"@,
        decimal_chars(mbit as nat) + "mbit"@,
    ];
    match attempt {
        CakeAttempt::Full => head + seq![
            "diffserv4"@,
            "dual-dsthost"@,
            "nat"@,
            "wash"@,
            "ack-filter"@,
        ],
        CakeAttempt::Plain => head + seq!["besteffort"@, "nat"@],
    }
}

impl CakeStep {
    /// Whether this step is to run the shaping command for `interface` at
    /// `mbit` Mbit/s with the options of `attempt`.
    pub open spec fn runs(self, interface: Seq<char>, mbit: u32, attempt: CakeAttempt) -> bool {
        match self {
            CakeStep::Run(cmd, a) => a == attempt && cmd.program@ == "tc"@ && cmd.args_view()
                == cake_args(interface, mbit, attempt),
            _ => false,
        }
    }
}

/// The command that shapes `interface` to `mbit` Mbit/s.
pub fn cake_command(interface: &str, mbit: u32, attempt: CakeAttempt) -> (cmd: ToolCommand)
    ensures
        cmd.program@ == "tc"@,
        cmd.args_view() == cake_args(interface@, mbit, attempt),
{
    let mut cmd = ToolCommand::new("tc");
    cmd.arg("qdisc");
    cmd.arg("replace");
    cmd.arg("dev");
    cmd.arg(interface);
    cmd.arg("root");
    cmd.arg("cake");
    cmd.arg("bandwidth");
    let mut bandwidth = to_decimal(mbit as u64);
    bandwidth.append("mbit");
    cmd.arg(bandwidth.as_str());
    match attempt {
        CakeAttempt::Full => {
            cmd.arg("diffserv4");
            cmd.arg("dual-dsthost");
            cmd.arg("nat");
            cmd.arg("wash");
            cmd.arg("ack-filter");
        },
        CakeAttempt::Plain => {
            cmd.arg("besteffort");
            cmd.arg("nat");
        },
    }
    assert(cmd.args_view() =~= cake_args(interface@, mbit, attempt));
    cmd
}

/// Whether the report of the queueing disciplines of an interface shows
/// shaping; `None` where there is no report.
pub fn has_cake(report: Option<&str>) -> (shaped: bool)
    ensures
        shaped == match report {
            Some(text) => contains_bytes(text.spec_bytes(), "cake".spec_bytes()),
            None => false,
        },
{
    match report {
        Some(text) => contains(text.as_bytes(), "cake".as_bytes()),
        None => false,
    }
}

/// Where the word `bandwidth` with a space behind it first stands in a
/// report; the length of the report where it does not.
pub open spec fn bandwidth_at(report: Seq<u8>) -> int {
    if contains_bytes(report, "bandwidth ".spec_bytes()) {
        choose|at: int|
            occurs_at(report, "bandwidth ".spec_bytes(), at) && forall|j: int|
                0 <= j < at ==> !occurs_at(report, "bandwidth ".spec_bytes(), j)
    } else {
        report.len() as int
    }
}

/// The bandwidth that a report of the queueing disciplines shows: the word
/// behind the first `bandwidth`.
pub open spec fn shown_bandwidth(report: Seq<u8>) -> Option<Seq<u8>> {
    if contains_bytes(report, "bandwidth ".spec_bytes()) {
        let rest = report.subrange(
            bandwidth_at(report) + "bandwidth ".spec_bytes().len(),
            report.len() as int,
        );
        if tokens_of(rest).len() > 0 {
            Some(tokens_of(rest)[0])
        } else {
            None
        }
    } else {
        None
    }
}

/// Reads the bandwidth from a report of the queueing disciplines.
pub fn shaped_bandwidth(report: &str) -> (bandwidth: Option<Vec<u8>>)
    ensures
        match bandwidth {
            Some(word) => shown_bandwidth(report.spec_bytes()) == Some(word@),
            None => shown_bandwidth(report.spec_bytes()).is_none(),
        },
{
    let text = report.as_bytes();
    let marker = "bandwidth ".as_bytes();
    let at: usize = match find_subsequence(text, marker) {
        Some(at) => at,
        None => {
            return None;
        },
    };
    proof {
        let chosen = bandwidth_at(text@);
        assert(chosen == at) by {
            if chosen < at {
                assert(!occurs_at(text@, marker@, chosen));
            } else if at < chosen {
                assert(!occurs_at(text@, marker@, at as int));
            }
        }
    }
    let total: usize = text.len();
    assert(at + marker@.len() <= total);
    let rest = copy_range(text, at + marker.len(), total);
    let mut words = split_whitespace(rest.as_slice());
    if words.len() > 0 {
        let ghost all = words_view(words@);
        let first = words.swap_remove(0);
        assert(first@ == all[0]);
        Some(first)
    } else {
        None
    }
}

/// Commands that switch offload features of an interface.
pub struct EthtoolManager;

impl EthtoolManager {
    /// The command that switches adaptive interrupt coalescing on.
    pub fn enable_coalescing(interface: &str) -> (cmd: ToolCommand)
        ensures
            cmd.program@ == "ethtool"@,
            cmd.args_view() == seq!["-C"@, interface@, "adaptive-rx"@, "on"@],
    {
        let mut cmd = ToolCommand::new("ethtool");
        cmd.arg("-C");
        cmd.arg(interface);
        cmd.arg("adaptive-rx");
        cmd.arg("on");
        assert(cmd.args_view() =~= seq!["-C"@, interface@, "adaptive-rx"@, "on"@]);
        cmd
    }

    /// The command that switches adaptive interrupt coalescing off.
    pub fn disable_coalescing(interface: &str) -> (cmd: ToolCommand)
        ensures
            cmd.program@ == "ethtool"@,
            cmd.args_view() == seq!["-C"@, interface@, "adaptive-rx"@, "off"@],
    {
        let mut cmd = ToolCommand::new("ethtool");
        cmd.arg("-C");
        cmd.arg(interface);
        cmd.arg("adaptive-rx");
        cmd.arg("off");
        assert(cmd.args_view() =~= seq!["-C"@, interface@, "adaptive-rx"@, "off"@]);
        cmd
    }

    /// The command that switches low-power ethernet on.
    pub fn enable_eee(interface: &str) -> (cmd: ToolCommand)
        ensures
            cmd.program@ == "ethtool"@,
            cmd.args_view() == seq!["--set-eee"@, interface@, "eee"@, "on"@],
    {
        let mut cmd = ToolCommand::new("ethtool");
        cmd.arg("--set-eee");
        cmd.arg(interface);
        cmd.arg("eee");
        cmd.arg("on");
        assert(cmd.args_view() =~= seq!["--set-eee"@, interface@, "eee"@, "on"@]);
        cmd
    }

    /// The command that switches low-power ethernet off.
    pub fn disable_eee(interface: &str) -> (cmd: ToolCommand)
        ensures
            cmd.program@ == "ethtool"@,
            cmd.args_view() == seq!["--set-eee"@, interface@, "eee"@, "off"@],
    {
        let mut cmd = ToolCommand::new("ethtool");
        cmd.arg("--set-eee");
        cmd.arg(interface);
        cmd.arg("eee");
        cmd.arg("off");
        assert(cmd.args_view() =~= seq!["--set-eee"@, interface@, "eee"@, "off"@]);
        cmd
    }
}

/// Bandwidth estimator with asymmetric response: decreases are applied after
/// few qualifying samples, increases only after more of them.
pub struct TcManager {
    last_bandwidth: Option<u32>,
    sample_window: VecDeque<u32>,
    window_size: usize,
    change_threshold_mbit: u32,
    change_threshold_permille: u32,
    stable_ticks: u32,
    hysteresis_ticks_up: u32,
    hysteresis_ticks_down: u32,
    pending_bandwidth: Option<u32>,
    pending_direction_up: bool,
    game_mode_frozen: bool,
    frozen_bandwidth: Option<u32>,
    throughput_bandwidth: Option<u32>,
}

impl View for TcManager {
    type V = EstimatorModel;

    closed spec fn view(&self) -> EstimatorModel {
        EstimatorModel {
            last_bandwidth: self.last_bandwidth,
            window: self.sample_window@,
            window_size: self.window_size as nat,
            threshold_mbit: self.change_threshold_mbit,
            threshold_permille: self.change_threshold_permille,
            stable_ticks: self.stable_ticks,
            ticks_up: self.hysteresis_ticks_up,
            ticks_down: self.hysteresis_ticks_down,
            pending: self.pending_bandwidth,
            pending_up: self.pending_direction_up,
            frozen: self.game_mode_frozen,
            frozen_bandwidth: self.frozen_bandwidth,
            throughput: self.throughput_bandwidth,
        }
    }
}

impl Default for TcManager {
    fn default() -> (tc: Self)
        ensures
            tc@ == EstimatorModel::fresh(3, 15, 150, 3, 1),
            tc@.wf(),
    {
        TcManager::new(3, 15, 150, 3, 1)
    }
}

impl TcManager {
    /// An estimator with an empty window and nothing applied.
    /// `threshold_permille` is the relative threshold in thousandths (150 for
    /// 15 %).
    pub fn new(
        window_size: usize,
        threshold_mbit: u32,
        threshold_permille: u32,
        hysteresis_up: u32,
        hysteresis_down: u32,
    ) -> (tc: Self)
        ensures
            tc@ == EstimatorModel::fresh(
                window_size as nat,
                threshold_mbit,
                threshold_permille,
                hysteresis_up,
                hysteresis_down,
            ),
            tc@.wf(),
    {
        TcManager {
            last_bandwidth: None,
            sample_window: VecDeque::new(),
            window_size,
            change_threshold_mbit: threshold_mbit,
            change_threshold_permille: threshold_permille,
            stable_ticks: 0,
            hysteresis_ticks_up: hysteresis_up,
            hysteresis_ticks_down: hysteresis_down,
            pending_bandwidth: None,
            pending_direction_up: false,
            game_mode_frozen: false,
            frozen_bandwidth: None,
            throughput_bandwidth: None,
        }
    }

    /// The median of the window, if it holds any sample.
    fn median(&self) -> (m: Option<u32>)
        ensures
            m == if self@.window.len() > 0 {
                Some(median_of(self@.window))
            } else {
                None::<u32>
            },
    {
        if self.sample_window.len() == 0 {
            return None;
        }
        let sorted = sorted_copy(&self.sample_window);
        proof {
            lemma_sorted_samples(self.sample_window@);
        }
        let mid: usize = sorted.len() / 2;
        if sorted.len() % 2 == 0 {
            let low: u64 = sorted[mid - 1] as u64;
            let high: u64 = sorted[mid] as u64;
            Some(((low + high) / 2) as u32)
        } else {
            Some(sorted[mid])
        }
    }

    /// Records the measured throughput, in bytes per second, as an estimate in
    /// Mbit/s (rounded down, at most `u32::MAX`). A measurement below one Mbit/s
    /// leaves the estimate as it was.
    pub fn update_throughput(&mut self, bytes_per_sec: u64)
        ensures
            final(self)@ == old(self)@.measured(bytes_per_sec),
            old(self)@.wf() ==> final(self)@.wf(),
    {
        let mbit: u64 = bytes_per_sec / 125_000;
        if mbit > 0 {
            if mbit > u32::MAX as u64 {
                self.throughput_bandwidth = Some(u32::MAX);
            } else {
                self.throughput_bandwidth = Some(mbit as u32);
            }
        }
    }

    /// Freezes the estimator at the value currently applied. Has no effect on
    /// an estimator that is frozen already.
    pub fn enter_game_mode(&mut self)
        ensures
            final(self)@ == if old(self)@.frozen {
                old(self)@
            } else {
                EstimatorModel {
                    frozen: true,
                    frozen_bandwidth: old(self)@.last_bandwidth,
                    ..old(self)@
                }
            },
            old(self)@.wf() ==> final(self)@.wf(),
    {
        if !self.game_mode_frozen {
            self.frozen_bandwidth = self.last_bandwidth;
            self.game_mode_frozen = true;
        }
    }

    /// Lifts the freeze and forgets any pending change, so that hysteresis
    /// starts anew. Has no effect on an estimator that is not frozen.
    pub fn exit_game_mode(&mut self)
        ensures
            final(self)@ == if old(self)@.frozen {
                EstimatorModel {
                    frozen: false,
                    frozen_bandwidth: None,
                    stable_ticks: 0,
                    pending: None,
                    ..old(self)@
                }
            } else {
                old(self)@
            },
            old(self)@.wf() ==> final(self)@.wf(),
    {
        if self.game_mode_frozen {
            self.game_mode_frozen = false;
            self.frozen_bandwidth = None;
            self.stable_ticks = 0;
            self.pending_bandwidth = None;
        }
    }

    /// Feeds one PHY-rate sample, in Mbit/s, and says whether the shaping
    /// target is to be applied now.
    pub fn update_bandwidth(&mut self, phy_rate_mbit: u32) -> (apply: bool)
        requires
            old(self)@.wf(),
        ensures
            (final(self)@, apply) == old(self)@.observe(phy_rate_mbit),
            final(self)@.wf(),
    {
        if self.game_mode_frozen {
            return false;
        }
        if phy_rate_mbit == 0 {
            return false;
        }
        let effective_mbit: u32 = match self.throughput_bandwidth {
            Some(throughput) => {
                let floor: u32 = if throughput > 50 { throughput } else { 50 };
                if phy_rate_mbit < floor { phy_rate_mbit } else { floor }
            },
            None => phy_rate_mbit,
        };

        self.sample_window.push_back(effective_mbit);
        if self.sample_window.len() > self.window_size {
            let _ = self.sample_window.pop_front();
        }
        assert(self.sample_window@ == slide(
            old(self)@.window,
            old(self)@.window_size,
            effective_mbit,
        ));

        let half: usize = self.window_size / 2 + self.window_size % 2;
        let min_samples: usize = if half > 2 { half } else { 2 };
        assert(min_samples == warm_up_samples(self.window_size as nat));
        if self.sample_window.len() < min_samples {
            return false;
        }
        let target_mbit: u32 = match self.median() {
            Some(m) => m,
            None => {
                return false;
            },
        };

        let (should_consider, is_decrease): (bool, bool) = match self.last_bandwidth {
            Some(last) => {
                let abs_diff: u32 = if target_mbit >= last {
                    target_mbit - last
                } else {
                    last - target_mbit
                };
                let permille: u64 = self.change_threshold_permille as u64;
                let base: u64 = last as u64;
                assert(permille * base <= 0xFFFF_FFFF * 0xFFFF_FFFF) by (nonlinear_arith)
                    requires
                        permille <= 0xFFFF_FFFF,
                        base <= 0xFFFF_FFFF,
                ;
                let relative: bool = (abs_diff as u64) * 1000 >= permille * base;
                (abs_diff >= self.change_threshold_mbit || relative, target_mbit < last)
            },
            None => (true, false),
        };

        if !should_consider {
            self.stable_ticks = 0;
            self.pending_bandwidth = None;
            return false;
        }
        let required_ticks: u32 = if is_decrease {
            self.hysteresis_ticks_down
        } else {
            self.hysteresis_ticks_up
        };
        let direction_changed: bool = self.pending_bandwidth.is_some()
            && self.pending_direction_up != !is_decrease;

        if direction_changed {
            self.pending_bandwidth = Some(target_mbit);
            self.pending_direction_up = !is_decrease;
            self.stable_ticks = 1;
        } else if self.pending_bandwidth.is_some() {
            self.stable_ticks = self.stable_ticks + 1;
            self.pending_bandwidth = Some(target_mbit);
        } else {
            self.pending_bandwidth = Some(target_mbit);
            self.pending_direction_up = !is_decrease;
            self.stable_ticks = 1;
        }

        if self.stable_ticks >= required_ticks {
            self.stable_ticks = 0;
            self.pending_bandwidth = None;
            true
        } else {
            false
        }
    }

    /// The bandwidth, in Mbit/s, that a shaping command is to be given now.
    pub fn get_target_bandwidth(&self) -> (mbit: u32)
        ensures
            mbit == target_bandwidth(self@.window),
    {
        let m: u32 = match self.median() {
            Some(m) => m,
            None => 200,
        };
        if m > 10 { m } else { 10 }
    }

    /// Whether game mode has frozen the estimator.
    pub fn is_game_mode(&self) -> (frozen: bool)
        ensures
            frozen == self@.frozen,
    {
        self.game_mode_frozen
    }

    /// The bandwidth, in Mbit/s, that a shaping command is to be given now.
    pub fn get_target_mbit(&self) -> (mbit: u32)
        ensures
            mbit == target_bandwidth(self@.window),
    {
        self.get_target_bandwidth()
    }

    /// One step of shaping an interface to the current target. `last` is the
    /// attempt that was just run and whether it succeeded, `None` before the
    /// first attempt. The full profile is tried first and the plain one after
    /// it failed; the target counts as applied once an attempt succeeded.
    pub fn apply_cake(&mut self, interface: &str, last: Option<(CakeAttempt, bool)>) -> (step:
        CakeStep)
        ensures
            match last {
                None => step.runs(interface@, target_bandwidth(old(self)@.window), CakeAttempt::Full)
                    && final(self)@ == old(self)@,
                Some((CakeAttempt::Full, false)) => step.runs(
                    interface@,
                    target_bandwidth(old(self)@.window),
                    CakeAttempt::Plain,
                ) && final(self)@ == old(self)@,
                Some((CakeAttempt::Plain, false)) => step is Failed && final(self)@ == old(
                    self,
                )@,
                Some((_, true)) => step == CakeStep::Applied(target_bandwidth(old(self)@.window))
                    && final(self)@ == old(self)@.confirmed(),
            },
            old(self)@.wf() ==> final(self)@.wf(),
    {
        let bandwidth_mbit: u32 = self.get_target_bandwidth();
        match last {
            None => CakeStep::Run(
                cake_command(interface, bandwidth_mbit, CakeAttempt::Full),
                CakeAttempt::Full,
            ),
            Some((attempt, succeeded)) => {
                if succeeded {
                    self.last_bandwidth = Some(bandwidth_mbit);
                    CakeStep::Applied(bandwidth_mbit)
                } else {
                    match attempt {
                        CakeAttempt::Full => CakeStep::Run(
                            cake_command(interface, bandwidth_mbit, CakeAttempt::Plain),
                            CakeAttempt::Plain,
                        ),
                        CakeAttempt::Plain => CakeStep::Failed,
                    }
                }
            },
        }
    }

    /// The command that removes shaping from an interface.
    pub fn remove_cake(&self, interface: &str) -> (cmd: ToolCommand)
        ensures
            cmd.program@ == "tc"@,
            cmd.args_view() == seq!["qdisc"@, "del"@, "dev"@, interface@, "root"@],
    {
        let mut cmd = ToolCommand::new("tc");
        cmd.arg("qdisc");
        cmd.arg("del");
        cmd.arg("dev");
        cmd.arg(interface);
        cmd.arg("root");
        assert(cmd.args_view() =~= seq!["qdisc"@, "del"@, "dev"@, interface@, "root"@]);
        cmd
    }

    /// Records `mbit` as the bandwidth that is applied.
    pub fn set_last_applied(&mut self, mbit: u32)
        ensures
            final(self)@ == (EstimatorModel { last_bandwidth: Some(mbit), ..old(self)@ }),
            old(self)@.wf() ==> final(self)@.wf(),
    {
        self.last_bandwidth = Some(mbit);
    }
}

} // verus!
