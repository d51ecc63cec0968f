//! Processor load from cumulative CPU-time counters, smoothed by a rolling
//! average. Load is held in thousandths: 0 is idle, 1000 is fully busy.

use crate::text::{
    lines_of, numbers_in, parse_numbers, split_lines, split_whitespace, starts_with,
    starts_with_bytes, tokens_of,
};
use std::collections::VecDeque;
use vstd::prelude::*;
use vstd::string::StringSliceAdditionalSpecFns;

verus! {

/// Cumulative CPU times, in clock ticks, by state.
#[derive(Debug, Clone, Copy)]
pub struct CpuTimes {
    pub user: u64,
    pub nice: u64,
    pub system: u64,
    pub idle: u64,
    pub iowait: u64,
    pub irq: u64,
    pub softirq: u64,
    pub steal: u64,
}

impl Default for CpuTimes {
    fn default() -> (t: Self)
        ensures
            t.total_of() == 0,
            t.idle_of() == 0,
    {
        CpuTimes {
            user: 0,
            nice: 0,
            system: 0,
            idle: 0,
            iowait: 0,
            irq: 0,
            softirq: 0,
            steal: 0,
        }
    }
}

/// What the counter text says: its first line must begin with `cpu` and a
/// space; the numbers among the words behind that label are the times, of
/// which there must be eight.
pub open spec fn times_of(content: Seq<u8>) -> Option<CpuTimes> {
    let lines = lines_of(content);
    if lines.len() == 0 || !starts_with_bytes(lines[0], "cpu ".spec_bytes()) {
        None
    } else {
        let words = tokens_of(lines[0]);
        let parts = numbers_in(if words.len() > 0 { words.drop_first() } else { words });
        if parts.len() < 8 {
            None
        } else {
            Some(
                CpuTimes {
                    user: parts[0],
                    nice: parts[1],
                    system: parts[2],
                    idle: parts[3],
                    iowait: parts[4],
                    irq: parts[5],
                    softirq: parts[6],
                    steal: parts[7],
                },
            )
        }
    }
}

impl CpuTimes {
    /// Time in all states together.
    pub open spec fn total_of(&self) -> int {
        self.user + self.nice + self.system + self.idle + self.iowait + self.irq + self.softirq
            + self.steal
    }

    /// Time spent idle or waiting for I/O.
    pub open spec fn idle_of(&self) -> int {
        self.idle + self.iowait
    }

    /// Reads the times from the text of the kernel's counter file.
    pub fn from_proc_stat(content: &str) -> (times: Option<Self>)
        ensures
            times == times_of(content.spec_bytes()),
    {
        let lines = split_lines(content.as_bytes());
        if lines.len() == 0 {
            return None;
        }
        assert(crate::text::words_view(lines@)[0] == lines@[0]@);
        if !starts_with(lines[0].as_slice(), "cpu ".as_bytes()) {
            return None;
        }
        let mut words = split_whitespace(lines[0].as_slice());
        let ghost all = crate::text::words_view(words@);
        if words.len() > 0 {
            let _ = words.remove(0);
            assert(crate::text::words_view(words@) =~= all.drop_first());
        }
        let parts = parse_numbers(&words);
        if parts.len() < 8 {
            return None;
        }
        Some(
            CpuTimes {
                user: parts[0],
                nice: parts[1],
                system: parts[2],
                idle: parts[3],
                iowait: parts[4],
                irq: parts[5],
                softirq: parts[6],
                steal: parts[7],
            },
        )
    }

    /// Time in all states together.
    pub fn total(&self) -> (total: u64)
        requires
            self.total_of() <= u64::MAX,
        ensures
            total == self.total_of(),
    {
        self.user + self.nice + self.system + self.idle + self.iowait + self.irq + self.softirq
            + self.steal
    }

    /// Time spent idle or waiting for I/O.
    pub fn idle_time(&self) -> (idle: u64)
        requires
            self.idle_of() <= u64::MAX,
        ensures
            idle == self.idle_of(),
    {
        self.idle + self.iowait
    }
}

/// The load between two readings, in thousandths: the share of the elapsed
/// time that was not idle, rounded down. Zero where no time has elapsed or
/// the counters went back.
pub open spec fn load_between(previous: CpuTimes, current: CpuTimes) -> u32 {
    let total = current.total_of() - previous.total_of();
    let idle = if current.idle_of() >= previous.idle_of() {
        current.idle_of() - previous.idle_of()
    } else {
        0
    };
    if total <= 0 || idle >= total {
        0
    } else {
        (((total - idle) * 1000) / total) as u32
    }
}

/// The sum of the samples.
pub open spec fn sum_of(samples: Seq<u32>) -> nat
    decreases samples.len(),
{
    if samples.len() == 0 {
        0
    } else {
        sum_of(samples.drop_last()) + samples.last() as nat
    }
}

/// The average of the samples, rounded down; zero where there is none.
pub open spec fn average_of(samples: Seq<u32>) -> u32 {
    if samples.len() == 0 {
        0
    } else {
        (sum_of(samples) / samples.len()) as u32
    }
}

/// The window after `sample` entered it: where the window is full, the oldest
/// sample leaves first.
pub open spec fn pushed_load(window: Seq<u32>, capacity: nat, sample: u32) -> Seq<u32> {
    if window.len() >= capacity && window.len() > 0 {
        window.drop_first().push(sample)
    } else {
        window.push(sample)
    }
}

/// The load sampler as a mathematical value.
pub struct CpuModel {
    /// The counters of the last reading.
    pub last_times: Option<CpuTimes>,
    /// The raw load samples, oldest first.
    pub samples: Seq<u32>,
    /// The capacity of the window.
    pub window_size: nat,
}

impl CpuModel {
    /// Every sample is a share of the whole.
    pub open spec fn wf(self) -> bool {
        forall|i: int| 0 <= i < self.samples.len() ==> #[trigger] self.samples[i] <= 1000
    }

    /// The sampler after one call: unreadable counters leave it as it was; a
    /// reading becomes the new baseline and adds a raw sample, zero for the
    /// first reading.
    pub open spec fn sampled(self, times: Option<CpuTimes>) -> CpuModel {
        match times {
            Some(current) => {
                let load = match self.last_times {
                    Some(previous) => load_between(previous, current),
                    None => 0,
                };
                CpuModel {
                    last_times: Some(current),
                    samples: pushed_load(self.samples, self.window_size, load),
                    window_size: self.window_size,
                }
            },
            None => self,
        }
    }
}

/// A sum of shares is at most a thousand times their number.
pub proof fn lemma_sum_bound(samples: Seq<u32>)
    requires
        forall|i: int| 0 <= i < samples.len() ==> #[trigger] samples[i] <= 1000,
    ensures
        sum_of(samples) <= 1000 * samples.len(),
        average_of(samples) <= 1000,
    decreases samples.len(),
{
    if samples.len() > 0 {
        lemma_sum_bound(samples.drop_last());
        let n = samples.len();
        assert(sum_of(samples) / n <= 1000) by (nonlinear_arith)
            requires
                sum_of(samples) <= 1000 * n,
                n > 0,
        ;
    }
}

/// Sampler of the system's CPU load, smoothed over a rolling window.
pub struct CpuMonitor {
    last_times: Option<CpuTimes>,
    samples: VecDeque<u32>,
    window_size: usize,
}

impl View for CpuMonitor {
    type V = CpuModel;

    closed spec fn view(&self) -> CpuModel {
        CpuModel {
            last_times: self.last_times,
            samples: self.samples@,
            window_size: self.window_size as nat,
        }
    }
}

impl CpuMonitor {
    /// A sampler without a baseline and with an empty window.
    pub fn new(window_size: usize) -> (m: Self)
        ensures
            m@ == (CpuModel {
                last_times: None,
                samples: Seq::empty(),
                window_size: window_size as nat,
            }),
            m@.wf(),
    {
        CpuMonitor { last_times: None, samples: VecDeque::new(), window_size }
    }

    /// Takes one reading of the counters, `None` where they could not be
    /// read, and returns the smoothed load in thousandths.
    pub fn sample(&mut self, times: Option<CpuTimes>) -> (load: u32)
        requires
            old(self)@.wf(),
        ensures
            final(self)@ == old(self)@.sampled(times),
            final(self)@.wf(),
            load == average_of(final(self)@.samples),
            load <= 1000,
    {
        let current: CpuTimes = match times {
            Some(t) => t,
            None => {
                return self.smoothed_load();
            },
        };
        let load: u32 = match self.last_times {
            Some(previous) => raw_load(&previous, &current),
            None => 0,
        };
        self.last_times = Some(current);
        if self.samples.len() >= self.window_size && self.samples.len() > 0 {
            let _ = self.samples.pop_front();
        }
        self.samples.push_back(load);
        assert(self.samples@ =~= pushed_load(old(self)@.samples, old(self)@.window_size, load));
        self.smoothed_load()
    }

    /// The rolling average of the raw samples, in thousandths; zero while the
    /// window is empty.
    pub fn smoothed_load(&self) -> (load: u32)
        requires
            self@.wf(),
        ensures
            load == average_of(self@.samples),
            load <= 1000,
    {
        let n: usize = self.samples.len();
        if n == 0 {
            return 0;
        }
        let mut sum: u128 = 0;
        let mut i: usize = 0;
        assert(self.samples@.take(0) =~= Seq::<u32>::empty());
        assert(self@.samples == self.samples@);
        assert forall|k: int| 0 <= k < n implies #[trigger] self.samples@[k] <= 1000 by {
            assert(self@.samples[k] <= 1000);
        }
        while i < n
            invariant
                i <= n,
                n == self.samples@.len(),
                forall|k: int| 0 <= k < n ==> #[trigger] self.samples@[k] <= 1000,
                sum == sum_of(self.samples@.take(i as int)),
                sum <= 1000 * i,
            decreases n - i,
        {
            assert(self.samples@.take(i + 1).drop_last() =~= self.samples@.take(i as int));
            sum = sum + self.samples[i] as u128;
            i += 1;
        }
        proof {
            assert(self.samples@.take(n as int) =~= self.samples@);
            lemma_sum_bound(self.samples@);
        }
        (sum / n as u128) as u32
    }
}

/// The load between two readings, in thousandths.
fn raw_load(previous: &CpuTimes, current: &CpuTimes) -> (load: u32)
    ensures
        load == load_between(*previous, *current),
        load <= 1000,
{
    let total_now: u128 = current.user as u128 + current.nice as u128 + current.system as u128
        + current.idle as u128 + current.iowait as u128 + current.irq as u128
        + current.softirq as u128 + current.steal as u128;
    let total_then: u128 = previous.user as u128 + previous.nice as u128 + previous.system as u128
        + previous.idle as u128 + previous.iowait as u128 + previous.irq as u128
        + previous.softirq as u128 + previous.steal as u128;
    let idle_now: u128 = current.idle as u128 + current.iowait as u128;
    let idle_then: u128 = previous.idle as u128 + previous.iowait as u128;
    if total_now <= total_then {
        return 0;
    }
    let total: u128 = total_now - total_then;
    let idle: u128 = if idle_now >= idle_then { idle_now - idle_then } else { 0 };
    if idle >= total {
        return 0;
    }
    let busy: u128 = total - idle;
    assert((busy * 1000) as int / (total as int) <= 1000) by (nonlinear_arith)
        requires
            0 < busy <= total,
    ;
    (busy * 1000 / total) as u32
}

impl Default for CpuMonitor {
    fn default() -> (m: Self)
        ensures
            m@.window_size == 3,
            m@.samples.len() == 0,
            m@.last_times.is_none(),
            m@.wf(),
    {
        CpuMonitor::new(3)
    }
}

} // verus!
