//! Network interfaces: which ones there are, which driver runs them, and
//! what their link reports.

use crate::network::link_rate::{parse_rate, rate_kbit};
use crate::system::command::{decimal_chars, to_decimal, ToolCommand};
use crate::text::{
    contains, contains_bytes, copy_range, ends_with, ends_with_bytes, equal, find_byte,
    first_byte_at, lines_of, parse_i32, parsed_i32, split_lines, split_whitespace, starts_with,
    starts_with_bytes, tokens_of, trim, trimmed, words_view,
};
use vstd::prelude::*;
use vstd::string::{StringExecFns, StringSliceAdditionalSpecFns};

verus! {

/// Medium of an interface.
#[derive(Debug, Clone, Copy, PartialEq, Eq, Structural)]
pub enum InterfaceType {
    Wifi,
    Ethernet,
}

/// Driver family, by which optimisations are chosen.
#[derive(Debug, Clone, Copy, PartialEq, Eq, Structural)]
pub enum DriverCategory {
    Rtw89,
    Rtw88,
    RtlLegacy,
    MediaTek,
    Intel,
    Atheros,
    Broadcom,
    Ralink,
    Marvell,
    Generic,
}

/// A detected network interface.
#[derive(Debug, Clone)]
pub struct WifiInterface {
    pub name: String,
    pub driver: String,
    pub category: DriverCategory,
    pub interface_type: InterfaceType,
    pub is_active: bool,
}

/// One entry of the kernel's list of network interfaces.
#[derive(Debug, Clone)]
pub struct InterfaceEntry {
    pub name: String,
    /// The name of the driver, `None` where it cannot be told.
    pub driver: Option<String>,
    /// The text of the carrier file, `None` where unreadable.
    pub carrier: Option<String>,
}

/// The family of a driver, by its name.
pub open spec fn category_of(driver: Seq<u8>) -> DriverCategory {
    if contains_bytes(driver, "rtw89".spec_bytes()) {
        DriverCategory::Rtw89
    } else if contains_bytes(driver, "rtw88".spec_bytes()) {
        DriverCategory::Rtw88
    } else if starts_with_bytes(driver, "rtl".spec_bytes()) {
        DriverCategory::RtlLegacy
    } else if starts_with_bytes(driver, "mt7".spec_bytes()) || contains_bytes(
        driver,
        "mt76".spec_bytes(),
    ) {
        DriverCategory::MediaTek
    } else if starts_with_bytes(driver, "iwl".spec_bytes()) {
        DriverCategory::Intel
    } else if starts_with_bytes(driver, "ath".spec_bytes()) {
        DriverCategory::Atheros
    } else if starts_with_bytes(driver, "brcm".spec_bytes()) || driver == "wl".spec_bytes() {
        DriverCategory::Broadcom
    } else if starts_with_bytes(driver, "rt2".spec_bytes()) || starts_with_bytes(
        driver,
        "rt5".spec_bytes(),
    ) {
        DriverCategory::Ralink
    } else if starts_with_bytes(driver, "mwifiex".spec_bytes()) || starts_with_bytes(
        driver,
        "mwl".spec_bytes(),
    ) {
        DriverCategory::Marvell
    } else {
        DriverCategory::Generic
    }
}

/// The medium of an interface, by its name: wireless names begin with `wl`,
/// wired ones with `en` or `eth`; other interfaces are not managed.
pub open spec fn medium_of(name: Seq<u8>) -> Option<InterfaceType> {
    if starts_with_bytes(name, "wl".spec_bytes()) {
        Some(InterfaceType::Wifi)
    } else if starts_with_bytes(name, "en".spec_bytes()) || starts_with_bytes(
        name,
        "eth".spec_bytes(),
    ) {
        Some(InterfaceType::Ethernet)
    } else {
        None
    }
}

/// Whether a carrier file says that the link is up.
pub open spec fn carrier_up(carrier: Option<String>) -> bool {
    match carrier {
        Some(text) => trimmed(vstd::utf8::encode_utf8(text@)) == "1".spec_bytes(),
        None => false,
    }
}

impl InterfaceEntry {
    /// Whether this entry is a managed interface.
    pub open spec fn managed(&self) -> bool {
        medium_of(vstd::utf8::encode_utf8(self.name@)).is_some()
    }

    /// Whether `ifc` is what is detected of this entry: its name, its medium,
    /// its driver (`unknown` where that cannot be told) with its family, and
    /// whether its carrier is up.
    pub open spec fn detected_as(&self, ifc: WifiInterface) -> bool {
        &&& ifc.name@ == self.name@
        &&& Some(ifc.interface_type) == medium_of(vstd::utf8::encode_utf8(self.name@))
        &&& ifc.driver@ == match self.driver {
            Some(d) => d@,
            None => "unknown"@,
        }
        &&& ifc.category == category_of(vstd::utf8::encode_utf8(ifc.driver@))
        &&& ifc.is_active == carrier_up(self.carrier)
    }
}

/// The places of the managed interfaces among `entries`, in order.
pub open spec fn managed_places(entries: Seq<InterfaceEntry>) -> Seq<int>
    decreases entries.len(),
{
    if entries.len() == 0 {
        Seq::empty()
    } else {
        let rest = managed_places(entries.drop_last());
        if entries.last().managed() {
            rest.push(entries.len() - 1)
        } else {
            rest
        }
    }
}

/// Whether `found` is exactly the managed interfaces among the first `n` of
/// `entries`, in their order, each as it is detected.
pub open spec fn detected(entries: Seq<InterfaceEntry>, n: int, found: Seq<WifiInterface>) -> bool {
    let places = managed_places(entries.take(n));
    &&& found.len() == places.len()
    &&& forall|k: int|
        0 <= k < found.len() ==> 0 <= #[trigger] places[k] < n
            && entries[places[k]].detected_as(found[k])
}

/// Link statistics of an interface. Bitrates are in Kbit/s.
#[derive(Debug, Clone, Copy, PartialEq, Eq, Structural)]
pub struct LinkStats {
    pub signal_dbm: i32,
    pub tx_bitrate_kbit: u32,
    pub rx_bitrate_kbit: u32,
}

impl Default for LinkStats {
    fn default() -> (s: Self)
        ensures
            s == (LinkStats { signal_dbm: 0, tx_bitrate_kbit: 0, rx_bitrate_kbit: 0 }),
    {
        LinkStats { signal_dbm: 0, tx_bitrate_kbit: 0, rx_bitrate_kbit: 0 }
    }
}

/// The rate that the word at `at` says, zero where it says none; `None`
/// where there is no such word.
pub open spec fn rate_at(words: Seq<Seq<u8>>, at: int) -> Option<u32> {
    if 0 <= at < words.len() {
        Some(
            match rate_kbit(words[at]) {
                Some(r) => r,
                None => 0,
            },
        )
    } else {
        None
    }
}

/// The statistics after one line of the wireless tool's report: a line that
/// begins with `signal:` sets the signal from its second word (-100 where
/// that is no number), one that begins with `tx bitrate:` or `rx bitrate:`
/// sets that bitrate from its third word (zero where that is no number).
pub open spec fn with_wifi_line(stats: LinkStats, line: Seq<u8>) -> LinkStats {
    let body = trimmed(line);
    let words = tokens_of(line);
    if starts_with_bytes(body, "signal:".spec_bytes()) {
        if words.len() > 1 {
            LinkStats {
                signal_dbm: match parsed_i32(words[1]) {
                    Some(v) => v,
                    None => -100i32,
                },
                ..stats
            }
        } else {
            stats
        }
    } else if starts_with_bytes(body, "tx bitrate:".spec_bytes()) {
        match rate_at(words, 2) {
            Some(r) => LinkStats { tx_bitrate_kbit: r, ..stats },
            None => stats,
        }
    } else if starts_with_bytes(body, "rx bitrate:".spec_bytes()) {
        match rate_at(words, 2) {
            Some(r) => LinkStats { rx_bitrate_kbit: r, ..stats },
            None => stats,
        }
    } else {
        stats
    }
}

/// The statistics that the lines of the wireless tool's report add up to.
pub open spec fn wifi_stats_of(lines: Seq<Seq<u8>>) -> LinkStats
    decreases lines.len(),
{
    if lines.len() == 0 {
        LinkStats { signal_dbm: 0, tx_bitrate_kbit: 0, rx_bitrate_kbit: 0 }
    } else {
        with_wifi_line(wifi_stats_of(lines.drop_last()), lines.last())
    }
}

/// What stands between the first colon of a line and the next one, or the
/// end of the line; nothing where the line has no colon.
pub open spec fn field_after_colon(line: Seq<u8>) -> Option<Seq<u8>> {
    let colon = first_byte_at(line, 0x3A);
    if colon >= line.len() {
        None
    } else {
        let rest = line.subrange(colon + 1, line.len() as int);
        Some(rest.subrange(0, first_byte_at(rest, 0x3A)))
    }
}

/// The speed in Kbit/s that a line of the wired tool's report says: the
/// number in Mbit/s behind the colon, white space and a unit `Mb/s` at its
/// end aside.
pub open spec fn speed_of(line: Seq<u8>) -> Option<u32> {
    match field_after_colon(line) {
        Some(field) => {
            let body = trimmed(field);
            let number = if ends_with_bytes(body, "Mb/s".spec_bytes()) {
                body.subrange(0, body.len() - "Mb/s".spec_bytes().len())
            } else {
                body
            };
            rate_kbit(number)
        },
        None => None,
    }
}

/// The statistics in the wired tool's report from line `from` on: the first
/// line that holds `Speed:` decides; its speed counts in both directions.
pub open spec fn ethernet_stats_of(lines: Seq<Seq<u8>>, from: int) -> LinkStats
    decreases lines.len() - from,
{
    if from < 0 || from >= lines.len() {
        LinkStats { signal_dbm: 0, tx_bitrate_kbit: 0, rx_bitrate_kbit: 0 }
    } else if contains_bytes(lines[from], "Speed:".spec_bytes()) {
        match speed_of(lines[from]) {
            Some(speed) => LinkStats {
                signal_dbm: 0,
                tx_bitrate_kbit: speed,
                rx_bitrate_kbit: speed,
            },
            None => LinkStats { signal_dbm: 0, tx_bitrate_kbit: 0, rx_bitrate_kbit: 0 },
        }
    } else {
        ethernet_stats_of(lines, from + 1)
    }
}

/// Whether the wireless tool's report shows a connection.
pub open spec fn report_connected(report: Seq<u8>) -> bool {
    contains_bytes(report, "Connected to".spec_bytes()) || (contains_bytes(
        report,
        "SSID:".spec_bytes(),
    ) && !contains_bytes(report, "Not connected".spec_bytes()))
}

/// Manages the detected interfaces.
pub struct WifiManager {
    interfaces: Vec<WifiInterface>,
}

impl WifiManager {
    /// Whether this manager holds exactly the managed interfaces among
    /// `entries`, in their order.
    pub open spec fn holds(&self, entries: Seq<InterfaceEntry>) -> bool {
        detected(entries, entries.len() as int, self.view())
    }

    /// The interfaces held.
    pub closed spec fn view(&self) -> Seq<WifiInterface> {
        self.interfaces@
    }

    /// A manager of the managed interfaces among `entries`.
    pub fn new(entries: &Vec<InterfaceEntry>) -> (m: Self)
        ensures
            m.holds(entries@),
    {
        WifiManager { interfaces: Self::detect_interfaces(entries) }
    }

    /// A manager of the managed interfaces among `entries`.
    pub fn new_quiet(entries: &Vec<InterfaceEntry>) -> (m: Self)
        ensures
            m.holds(entries@),
    {
        WifiManager { interfaces: Self::detect_interfaces(entries) }
    }

    /// Picks the managed interfaces from the kernel's list.
    pub fn detect_interfaces(entries: &Vec<InterfaceEntry>) -> (found: Vec<WifiInterface>)
        ensures
            detected(entries@, entries@.len() as int, found@),
    {
        let mut found: Vec<WifiInterface> = Vec::new();
        let mut i: usize = 0;
        assert(entries@.take(0) =~= Seq::<InterfaceEntry>::empty());
        while i < entries.len()
            invariant
                i <= entries@.len(),
                detected(entries@, i as int, found@),
            decreases entries@.len() - i,
        {
            let entry = &entries[i];
            let ghost before = managed_places(entries@.take(i as int));
            let ghost found_before = found@;
            assert(forall|k: int|
                0 <= k < found@.len() ==> 0 <= #[trigger] before[k] < i
                    && entries@[before[k]].detected_as(found@[k]));
            let ghost after = managed_places(entries@.take(i + 1));
            assert(entries@.take(i + 1).drop_last() =~= entries@.take(i as int));
            assert(entries@.take(i + 1).last() == entries@[i as int]);
            let name = entry.name.as_str().as_bytes();
            let medium: Option<InterfaceType> = if starts_with(name, "wl".as_bytes()) {
                Some(InterfaceType::Wifi)
            } else if starts_with(name, "en".as_bytes()) || starts_with(name, "eth".as_bytes()) {
                Some(InterfaceType::Ethernet)
            } else {
                None
            };
            match medium {
                Some(interface_type) => {
                    let driver: String = match &entry.driver {
                        Some(d) => d.clone(),
                        None => String::from_str("unknown"),
                    };
                    let category = Self::categorize_driver(driver.as_str());
                    let is_active: bool = match &entry.carrier {
                        Some(text) => {
                            let body = trim(text.as_str().as_bytes());
                            equal(body.as_slice(), "1".as_bytes())
                        },
                        None => false,
                    };
                    found.push(
                        WifiInterface {
                            name: entry.name.clone(),
                            driver,
                            category,
                            interface_type,
                            is_active,
                        },
                    );
                    assert(after =~= before.push(i as int));
                    assert forall|k: int| 0 <= k < found@.len() implies 0
                        <= #[trigger] after[k] < i + 1 && entries@[after[k]].detected_as(
                        found@[k],
                    ) by {
                        if k < found_before.len() {
                            assert(found@[k] == found_before[k]);
                            assert(after[k] == before[k]);
                        } else {
                            assert(after[k] == i);
                            assert(entries@[i as int].detected_as(found@[k]));
                        }
                    }
                },
                None => {
                    assert(after =~= before);
                    assert forall|k: int| 0 <= k < found@.len() implies 0
                        <= #[trigger] after[k] < i + 1 && entries@[after[k]].detected_as(
                        found@[k],
                    ) by {
                        assert(after[k] == before[k]);
                    }
                },
            }
            i += 1;
        }
        assert(entries@.take(entries@.len() as int) =~= entries@);
        found
    }

    /// The family of a driver.
    pub fn categorize_driver(driver: &str) -> (category: DriverCategory)
        ensures
            category == category_of(driver.spec_bytes()),
    {
        let d = driver.as_bytes();
        if contains(d, "rtw89".as_bytes()) {
            DriverCategory::Rtw89
        } else if contains(d, "rtw88".as_bytes()) {
            DriverCategory::Rtw88
        } else if starts_with(d, "rtl".as_bytes()) {
            DriverCategory::RtlLegacy
        } else if starts_with(d, "mt7".as_bytes()) || contains(d, "mt76".as_bytes()) {
            DriverCategory::MediaTek
        } else if starts_with(d, "iwl".as_bytes()) {
            DriverCategory::Intel
        } else if starts_with(d, "ath".as_bytes()) {
            DriverCategory::Atheros
        } else if starts_with(d, "brcm".as_bytes()) || equal(d, "wl".as_bytes()) {
            DriverCategory::Broadcom
        } else if starts_with(d, "rt2".as_bytes()) || starts_with(d, "rt5".as_bytes()) {
            DriverCategory::Ralink
        } else if starts_with(d, "mwifiex".as_bytes()) || starts_with(d, "mwl".as_bytes()) {
            DriverCategory::Marvell
        } else {
            DriverCategory::Generic
        }
    }

    /// All detected interfaces.
    pub fn interfaces(&self) -> (all: &Vec<WifiInterface>)
        ensures
            all@ == self.view(),
    {
        &self.interfaces
    }

    /// The command that switches power saving off, for a wireless interface;
    /// a wired one has no power saving to switch.
    pub fn disable_power_save(&self, ifc: &WifiInterface) -> (cmd: Option<ToolCommand>)
        ensures
            ifc.interface_type != InterfaceType::Wifi ==> cmd.is_none(),
            ifc.interface_type == InterfaceType::Wifi ==> cmd.is_some() && cmd.unwrap().program@
                == "iw"@ && cmd.unwrap().args_view() == seq![
                "dev"@,
                ifc.name@,
                "set"@,
                "power_save"@,
                "off"@,
            ],
    {
        match ifc.interface_type {
            InterfaceType::Wifi => Some(power_save_command(ifc.name.as_str(), false)),
            InterfaceType::Ethernet => None,
        }
    }

    /// The command that switches power saving on, for a wireless interface;
    /// a wired one has no power saving to switch.
    pub fn enable_power_save(&self, ifc: &WifiInterface) -> (cmd: Option<ToolCommand>)
        ensures
            ifc.interface_type != InterfaceType::Wifi ==> cmd.is_none(),
            ifc.interface_type == InterfaceType::Wifi ==> cmd.is_some() && cmd.unwrap().program@
                == "iw"@ && cmd.unwrap().args_view() == seq![
                "dev"@,
                ifc.name@,
                "set"@,
                "power_save"@,
                "on"@,
            ],
    {
        match ifc.interface_type {
            InterfaceType::Wifi => Some(power_save_command(ifc.name.as_str(), true)),
            InterfaceType::Ethernet => None,
        }
    }

    /// The link statistics of an interface, from what its tool reports: the
    /// wireless tool's report on the link for a wireless interface, the wired
    /// tool's report for a wired one.
    pub fn get_link_stats(&self, ifc: &WifiInterface, report: &str) -> (stats: LinkStats)
        ensures
            stats == match ifc.interface_type {
                InterfaceType::Wifi => wifi_stats_of(lines_of(report.spec_bytes())),
                InterfaceType::Ethernet => ethernet_stats_of(lines_of(report.spec_bytes()), 0),
            },
    {
        match ifc.interface_type {
            InterfaceType::Wifi => wifi_link_stats(report),
            InterfaceType::Ethernet => ethernet_link_stats(report),
        }
    }

    /// Whether an interface is connected. For a wireless interface `report`
    /// is what the wireless tool prints on the link; for a wired one it is
    /// the text of the carrier file. `None` where that could not be had.
    pub fn is_interface_connected(&self, ifc: &WifiInterface, report: Option<&str>) -> (connected:
        bool)
        ensures
            connected == match report {
                Some(text) => match ifc.interface_type {
                    InterfaceType::Wifi => report_connected(text.spec_bytes()),
                    InterfaceType::Ethernet => trimmed(text.spec_bytes()) == "1".spec_bytes(),
                },
                None => false,
            },
    {
        let text: &str = match report {
            Some(t) => t,
            None => {
                return false;
            },
        };
        match ifc.interface_type {
            InterfaceType::Wifi => {
                let r = text.as_bytes();
                contains(r, "Connected to".as_bytes()) || (contains(r, "SSID:".as_bytes())
                    && !contains(r, "Not connected".as_bytes()))
            },
            InterfaceType::Ethernet => {
                let body = trim(text.as_bytes());
                equal(body.as_slice(), "1".as_bytes())
            },
        }
    }

    /// The command that shapes an interface to `bandwidth_mbps`, for a round
    /// trip time given as the shaper takes it (such as `20ms`).
    pub fn apply_cake(&self, ifc: &WifiInterface, bandwidth_mbps: u32, rtt: &str) -> (cmd:
        ToolCommand)
        ensures
            cmd.program@ == "tc"@,
            cmd.args_view() == seq![
                "qdisc"@,
                "replace"@,
                "dev"@,
                ifc.name@,
                "root"@,
                "cake"@,
                "bandwidth"@,
                decimal_chars(bandwidth_mbps as nat) + "mbit"@,
                "rtt"@,
                rtt@,
                "diffserv4"@,
                "dual-dsthost"@,
                "nat"@,
                "wash"@,
                "ack-filter"@,
            ],
    {
        let mut cmd = ToolCommand::new("tc");
        cmd.arg("qdisc");
        cmd.arg("replace");
        cmd.arg("dev");
        cmd.arg(ifc.name.as_str());
        cmd.arg("root");
        cmd.arg("cake");
        cmd.arg("bandwidth");
        let mut bandwidth = to_decimal(bandwidth_mbps as u64);
        bandwidth.append("mbit");
        cmd.arg(bandwidth.as_str());
        cmd.arg("rtt");
        cmd.arg(rtt);
        cmd.arg("diffserv4");
        cmd.arg("dual-dsthost");
        cmd.arg("nat");
        cmd.arg("wash");
        cmd.arg("ack-filter");
        assert(cmd.args_view() =~= seq![
            "qdisc"@,
            "replace"@,
            "dev"@,
            ifc.name@,
            "root"@,
            "cake"@,
            "bandwidth"@,
            decimal_chars(bandwidth_mbps as nat) + "mbit"@,
            "rtt"@,
            rtt@,
            "diffserv4"@,
            "dual-dsthost"@,
            "nat"@,
            "wash"@,
            "ack-filter"@,
        ]);
        cmd
    }

    /// The command that removes shaping from an interface.
    pub fn remove_cake(&self, ifc: &WifiInterface) -> (cmd: ToolCommand)
        ensures
            cmd.program@ == "tc"@,
            cmd.args_view() == seq!["qdisc"@, "del"@, "dev"@, ifc.name@, "root"@],
    {
        let mut cmd = ToolCommand::new("tc");
        cmd.arg("qdisc");
        cmd.arg("del");
        cmd.arg("dev");
        cmd.arg(ifc.name.as_str());
        cmd.arg("root");
        assert(cmd.args_view() =~= seq!["qdisc"@, "del"@, "dev"@, ifc.name@, "root"@]);
        cmd
    }
}

/// The link statistics that the wireless tool's report holds.
fn wifi_link_stats(report: &str) -> (stats: LinkStats)
    ensures
        stats == wifi_stats_of(lines_of(report.spec_bytes())),
{
    let lines = split_lines(report.as_bytes());
    let ghost all = words_view(lines@);
    let mut stats = LinkStats { signal_dbm: 0, tx_bitrate_kbit: 0, rx_bitrate_kbit: 0 };
    let mut i: usize = 0;
    assert(all.take(0) =~= Seq::<Seq<u8>>::empty());
    while i < lines.len()
        invariant
            i <= lines@.len(),
            all == words_view(lines@),
            stats == wifi_stats_of(all.take(i as int)),
        decreases lines@.len() - i,
    {
        assert(all.take(i + 1).drop_last() =~= all.take(i as int));
        assert(all.take(i + 1).last() == lines@[i as int]@);
        let body = trim(lines[i].as_slice());
        let words = split_whitespace(lines[i].as_slice());
        let ghost ws = words_view(words@);
        if starts_with(body.as_slice(), "signal:".as_bytes()) {
            if words.len() > 1 {
                assert(ws[1] == words@[1]@);
                stats.signal_dbm = match parse_i32(words[1].as_slice()) {
                    Some(v) => v,
                    None => -100,
                };
            }
        } else if starts_with(body.as_slice(), "tx bitrate:".as_bytes()) {
            if words.len() > 2 {
                assert(ws[2] == words@[2]@);
                stats.tx_bitrate_kbit = match parse_rate(words[2].as_slice()) {
                    Some(r) => r,
                    None => 0,
                };
            }
        } else if starts_with(body.as_slice(), "rx bitrate:".as_bytes()) {
            if words.len() > 2 {
                assert(ws[2] == words@[2]@);
                stats.rx_bitrate_kbit = match parse_rate(words[2].as_slice()) {
                    Some(r) => r,
                    None => 0,
                };
            }
        }
        i += 1;
    }
    assert(all.take(all.len() as int) =~= all);
    stats
}

/// The link statistics that the wired tool's report holds.
fn ethernet_link_stats(report: &str) -> (stats: LinkStats)
    ensures
        stats == ethernet_stats_of(lines_of(report.spec_bytes()), 0),
{
    let lines = split_lines(report.as_bytes());
    let ghost all = words_view(lines@);
    let mut i: usize = 0;
    while i < lines.len()
        invariant
            i <= lines@.len(),
            all == words_view(lines@),
            all == lines_of(report.spec_bytes()),
            ethernet_stats_of(all, 0) == ethernet_stats_of(all, i as int),
        decreases lines@.len() - i,
    {
        assert(all[i as int] == lines@[i as int]@);
        let line = lines[i].as_slice();
        if contains(line, "Speed:".as_bytes()) {
            let colon: usize = find_byte(line, 0x3A);
            if colon >= line.len() {
                return LinkStats { signal_dbm: 0, tx_bitrate_kbit: 0, rx_bitrate_kbit: 0 };
            }
            let rest = copy_range(line, colon + 1, line.len());
            let end: usize = find_byte(rest.as_slice(), 0x3A);
            let field = copy_range(rest.as_slice(), 0, end);
            let body = trim(field.as_slice());
            let number = if ends_with(body.as_slice(), "Mb/s".as_bytes()) {
                copy_range(body.as_slice(), 0, body.len() - "Mb/s".as_bytes().len())
            } else {
                body
            };
            return match parse_rate(number.as_slice()) {
                Some(speed) => LinkStats {
                    signal_dbm: 0,
                    tx_bitrate_kbit: speed,
                    rx_bitrate_kbit: speed,
                },
                None => LinkStats { signal_dbm: 0, tx_bitrate_kbit: 0, rx_bitrate_kbit: 0 },
            };
        }
        i += 1;
    }
    LinkStats { signal_dbm: 0, tx_bitrate_kbit: 0, rx_bitrate_kbit: 0 }
}

/// The command that switches wireless power saving.
fn power_save_command(interface: &str, on: bool) -> (cmd: ToolCommand)
    ensures
        cmd.program@ == "iw"@,
        cmd.args_view() == seq![
            "dev"@,
            interface@,
            "set"@,
            "power_save"@,
            if on { "on"@ } else { "off"@ },
        ],
{
    let mut cmd = ToolCommand::new("iw");
    cmd.arg("dev");
    cmd.arg(interface);
    cmd.arg("set");
    cmd.arg("power_save");
    if on {
        cmd.arg("on");
    } else {
        cmd.arg("off");
    }
    assert(cmd.args_view() =~= seq![
        "dev"@,
        interface@,
        "set"@,
        "power_save"@,
        if on { "on"@ } else { "off"@ },
    ]);
    cmd
}

impl Default for WifiManager {
    fn default() -> (m: Self)
        ensures
            m.view().len() == 0,
    {
        WifiManager { interfaces: Vec::new() }
    }
}

} // verus!
