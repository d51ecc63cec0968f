//! Packet counters and the packet rate derived from them.

use crate::text::{parse_u64, parsed_u64, trim, trimmed};
use vstd::arithmetic::div_mod::lemma_div_multiples_vanish_quotient;
use vstd::prelude::*;
use vstd::string::StringSliceAdditionalSpecFns;

verus! {

/// Cumulative packet counters of one interface.
#[derive(Debug, Clone, Copy)]
pub struct NetStats {
    pub rx_packets: u64,
    pub tx_packets: u64,
}

impl Default for NetStats {
    fn default() -> (s: Self)
        ensures
            s.rx_packets == 0,
            s.tx_packets == 0,
    {
        NetStats { rx_packets: 0, tx_packets: 0 }
    }
}

/// What a counter file says: the number written in it, white space at its
/// ends aside.
pub open spec fn counter_of(text: Option<Seq<u8>>) -> Option<u64> {
    match text {
        Some(t) => parsed_u64(trimmed(t)),
        None => None,
    }
}

/// Reads one counter from the text of its file.
pub fn read_stat(text: Option<&str>) -> (value: Option<u64>)
    ensures
        value == counter_of(
            match text {
                Some(t) => Some(t.spec_bytes()),
                None => None,
            },
        ),
{
    match text {
        Some(t) => {
            let body = trim(t.as_bytes());
            parse_u64(body.as_slice())
        },
        None => None,
    }
}

impl NetStats {
    /// The sum of both counters.
    pub open spec fn total(&self) -> int {
        self.rx_packets + self.tx_packets
    }

    /// Builds the statistics from the text of the two counter files, each
    /// `None` where the file could not be read. Both must be there and hold a
    /// number.
    pub fn read(rx_packets: Option<&str>, tx_packets: Option<&str>) -> (stats: Option<Self>)
        ensures
            stats == match (
                counter_of(
                    match rx_packets {
                        Some(t) => Some(t.spec_bytes()),
                        None => None,
                    },
                ),
                counter_of(
                    match tx_packets {
                        Some(t) => Some(t.spec_bytes()),
                        None => None,
                    },
                ),
            ) {
                (Some(rx), Some(tx)) => Some(NetStats { rx_packets: rx, tx_packets: tx }),
                _ => None,
            },
    {
        let rx: u64 = match read_stat(rx_packets) {
            Some(v) => v,
            None => {
                return None;
            },
        };
        let tx: u64 = match read_stat(tx_packets) {
            Some(v) => v,
            None => {
                return None;
            },
        };
        Some(NetStats { rx_packets: rx, tx_packets: tx })
    }

    /// Total packets, received and sent.
    pub fn total_packets(&self) -> (total: u64)
        requires
            self.total() <= u64::MAX,
        ensures
            total == self.total(),
    {
        self.rx_packets + self.tx_packets
    }
}

/// `packets` per `elapsed_ms` milliseconds as packets per second, rounded to
/// the nearest whole number, halves upwards.
pub open spec fn rounded_rate(packets: nat, elapsed_ms: nat) -> nat
    recommends
        elapsed_ms > 0,
{
    (2000 * packets + elapsed_ms) / (2 * elapsed_ms)
}

/// By how much the total grew; zero where the counters went back.
pub open spec fn packets_between(previous: NetStats, current: NetStats) -> nat {
    if current.total() >= previous.total() {
        (current.total() - previous.total()) as nat
    } else {
        0
    }
}

/// The packet-rate sampler as a mathematical value.
pub struct SamplerModel {
    /// The counters of the last reading.
    pub last_stats: Option<NetStats>,
    /// When the last reading was taken, in milliseconds of a monotonic clock.
    pub last_sample_time: Option<u64>,
    /// The rate last computed, in packets per second.
    pub current_pps: u64,
}

impl SamplerModel {
    /// A sampler without a baseline.
    pub open spec fn fresh() -> SamplerModel {
        SamplerModel { last_stats: None, last_sample_time: None, current_pps: 0 }
    }

    /// The rate after a reading at `now_ms`: the rounded rate since the
    /// baseline, at most `u64::MAX`; the rate before where there is no
    /// baseline or no time has passed.
    pub open spec fn rate_after(self, stats: NetStats, now_ms: u64) -> u64 {
        match (self.last_stats, self.last_sample_time) {
            (Some(previous), Some(then)) => if now_ms > then {
                let rate = rounded_rate(
                    packets_between(previous, stats),
                    (now_ms - then) as nat,
                );
                if rate > u64::MAX { u64::MAX } else { rate as u64 }
            } else {
                self.current_pps
            },
            _ => self.current_pps,
        }
    }

    /// The sampler after one call: unreadable counters leave it as it was, a
    /// reading becomes the new baseline.
    pub open spec fn sampled(self, stats: Option<NetStats>, now_ms: u64) -> SamplerModel {
        match stats {
            Some(s) => SamplerModel {
                last_stats: Some(s),
                last_sample_time: Some(now_ms),
                current_pps: self.rate_after(s, now_ms),
            },
            None => self,
        }
    }
}

/// Packets-per-second sampler of one interface.
pub struct PpsMonitor {
    last_stats: Option<NetStats>,
    last_sample_time: Option<u64>,
    current_pps: u64,
}

impl View for PpsMonitor {
    type V = SamplerModel;

    closed spec fn view(&self) -> SamplerModel {
        SamplerModel {
            last_stats: self.last_stats,
            last_sample_time: self.last_sample_time,
            current_pps: self.current_pps,
        }
    }
}

impl PpsMonitor {
    /// A sampler without a baseline.
    pub fn new() -> (m: Self)
        ensures
            m@ == SamplerModel::fresh(),
    {
        PpsMonitor { last_stats: None, last_sample_time: None, current_pps: 0 }
    }

    /// Takes one reading of the counters, `None` where they could not be
    /// read, at `now_ms` milliseconds of a monotonic clock, and returns the
    /// packet rate.
    pub fn sample(&mut self, stats: Option<NetStats>, now_ms: u64) -> (pps: u64)
        ensures
            final(self)@ == old(self)@.sampled(stats, now_ms),
            pps == final(self)@.current_pps,
    {
        let current: NetStats = match stats {
            Some(s) => s,
            None => {
                return self.current_pps;
            },
        };
        match (self.last_stats, self.last_sample_time) {
            (Some(previous), Some(then)) => {
                if now_ms > then {
                    let elapsed: u128 = (now_ms - then) as u128;
                    let total: u128 = current.rx_packets as u128 + current.tx_packets as u128;
                    let before: u128 = previous.rx_packets as u128 + previous.tx_packets as u128;
                    let delta: u128 = if total >= before { total - before } else { 0 };
                    let rate: u128 = (2000 * delta + elapsed) / (2 * elapsed);
                    if rate > u64::MAX as u128 {
                        self.current_pps = u64::MAX;
                    } else {
                        self.current_pps = rate as u64;
                    }
                }
            },
            _ => {},
        }
        self.last_stats = Some(current);
        self.last_sample_time = Some(now_ms);
        self.current_pps
    }
}

impl Default for PpsMonitor {
    fn default() -> (m: Self)
        ensures
            m@ == SamplerModel::fresh(),
    {
        PpsMonitor::new()
    }
}

/// The first call of a fresh sampler returns zero, whatever the counters say.
pub proof fn lemma_first_sample_is_zero(stats: Option<NetStats>, now_ms: u64)
    ensures
        SamplerModel::fresh().sampled(stats, now_ms).current_pps == 0,
{
}

/// Counters that grow by `packets` every `seconds` whole seconds yield
/// `packets / seconds`, rounded to the nearest whole number.
pub proof fn lemma_rate_per_second(packets: nat, seconds: nat)
    requires
        seconds > 0,
    ensures
        rounded_rate(packets, seconds * 1000) == (2 * packets + seconds) / (2 * seconds),
        seconds == 1 ==> rounded_rate(packets, seconds * 1000) == packets,
{
    lemma_div_multiples_vanish_quotient(
        1000,
        (2 * packets + seconds) as int,
        (2 * seconds) as int,
    );
    assert(1000 * (2 * packets + seconds) == 2000 * packets + seconds * 1000) by (nonlinear_arith);
    assert(1000 * (2 * seconds) == 2 * (seconds * 1000)) by (nonlinear_arith);
    if seconds == 1 {
        assert((2 * packets + 1) / 2 == packets);
    }
}

/// Counters that went back yield a rate of zero, never a negative one.
pub proof fn lemma_rollback_is_zero(previous: NetStats, current: NetStats, elapsed_ms: nat)
    requires
        current.total() < previous.total(),
        elapsed_ms > 0,
    ensures
        rounded_rate(packets_between(previous, current), elapsed_ms) == 0,
{
    vstd::arithmetic::div_mod::lemma_basic_div(elapsed_ms as int, (2 * elapsed_ms) as int);
}

} // verus!
