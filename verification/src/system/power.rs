//! Power source and device class, decided from what the power-supply
//! directory of the kernel shows.

use crate::text::{
    contains, contains_bytes, equal, parse_u64, parsed_u64, starts_with, starts_with_bytes, trim,
    trimmed,
};
use vstd::prelude::*;
use vstd::string::StringSliceAdditionalSpecFns;

verus! {

/// Where the power comes from.
#[derive(Debug, Clone, Copy, PartialEq, Eq, Structural)]
pub enum PowerSource {
    AC,
    Battery,
    Unknown,
}

/// Class of the device.
#[derive(Debug, Clone, Copy, PartialEq, Eq, Structural)]
pub enum DeviceType {
    Desktop,
    Laptop,
    SteamDeck,
}

/// One entry of the power-supply directory: its name and the text of the
/// files below it, each `None` where the file could not be read.
#[derive(Debug, Clone)]
pub struct PowerSupply {
    pub name: String,
    /// Text of the file `type`.
    pub kind: Option<String>,
    /// Text of the file `online`.
    pub online: Option<String>,
    /// Text of the file `status`.
    pub status: Option<String>,
    /// Text of the file `capacity`.
    pub capacity: Option<String>,
    /// Whether the file `capacity` exists.
    pub has_capacity: bool,
}

/// Whether the text is there and, white space at its ends aside, says `word`.
pub open spec fn says(text: Option<String>, word: Seq<u8>) -> bool {
    match text {
        Some(t) => trimmed(vstd::utf8::encode_utf8(t@)) == word,
        None => false,
    }
}

/// Whether a supply belongs to a peripheral (a mouse, a keyboard) and not to
/// the machine. `with_tablets` also counts drawing tablets.
pub open spec fn is_peripheral(name: Seq<u8>, with_tablets: bool) -> bool {
    ||| contains_bytes(name, "hidpp".spec_bytes())
    ||| contains_bytes(name, "hid".spec_bytes())
    ||| contains_bytes(name, "mouse".spec_bytes())
    ||| contains_bytes(name, "keyboard".spec_bytes())
    ||| with_tablets && contains_bytes(name, "wacom".spec_bytes())
}

/// Whether a supply is named like a mains adapter.
pub open spec fn is_adapter_name(name: Seq<u8>) -> bool {
    ||| starts_with_bytes(name, "AC".spec_bytes())
    ||| starts_with_bytes(name, "ADP".spec_bytes())
    ||| contains_bytes(name, "ACAD".spec_bytes())
}

/// Whether a supply is named like the machine's battery.
pub open spec fn is_battery_name(name: Seq<u8>) -> bool {
    starts_with_bytes(name, "BAT".spec_bytes()) || name == "battery".spec_bytes()
}

impl PowerSupply {
    /// The bytes of the name.
    pub open spec fn name_bytes(&self) -> Seq<u8> {
        vstd::utf8::encode_utf8(self.name@)
    }

    /// Whether this entry is a real battery of the machine: no peripheral, of
    /// type `Battery`, and with a capacity.
    pub open spec fn is_system_battery(&self) -> bool {
        &&& !is_peripheral(self.name_bytes(), true)
        &&& says(self.kind, "Battery".spec_bytes())
        &&& self.has_capacity
    }

    /// Whether this entry shows mains power: an adapter that is online, or a
    /// battery that is charging, full or not charging.
    pub open spec fn shows_mains(&self) -> bool {
        &&& !is_peripheral(self.name_bytes(), false)
        &&& {
            ||| is_adapter_name(self.name_bytes()) && says(self.online, "1".spec_bytes())
            ||| is_battery_name(self.name_bytes()) && {
                ||| says(self.status, "Charging".spec_bytes())
                ||| says(self.status, "Full".spec_bytes())
                ||| says(self.status, "Not charging".spec_bytes())
            }
        }
    }

    /// Whether this entry is the machine's battery.
    pub open spec fn shows_battery(&self) -> bool {
        !is_peripheral(self.name_bytes(), false) && is_battery_name(self.name_bytes())
    }

    /// Whether this entry is the machine's battery and is discharging.
    pub open spec fn shows_discharging(&self) -> bool {
        self.shows_battery() && says(self.status, "Discharging".spec_bytes())
    }

    /// Whether this entry is a battery whose charge can be read.
    pub open spec fn shows_charge(&self) -> bool {
        is_battery_name(self.name_bytes()) && self.capacity.is_some()
    }
}

/// Whether the text is there and, white space at its ends aside, says `word`.
fn text_says(text: &Option<String>, word: &str) -> (same: bool)
    ensures
        same == says(*text, word.spec_bytes()),
{
    match text {
        Some(t) => {
            let body = trim(t.as_str().as_bytes());
            equal(body.as_slice(), word.as_bytes())
        },
        None => false,
    }
}

/// Whether a supply belongs to a peripheral.
fn peripheral(name: &[u8], with_tablets: bool) -> (is: bool)
    ensures
        is == is_peripheral(name@, with_tablets),
{
    contains(name, "hidpp".as_bytes()) || contains(name, "hid".as_bytes()) || contains(
        name,
        "mouse".as_bytes(),
    ) || contains(name, "keyboard".as_bytes()) || (with_tablets && contains(
        name,
        "wacom".as_bytes(),
    ))
}

/// Whether a supply is named like the machine's battery.
fn battery_name(name: &[u8]) -> (is: bool)
    ensures
        is == is_battery_name(name@),
{
    starts_with(name, "BAT".as_bytes()) || equal(name, "battery".as_bytes())
}

/// Whether a supply is named like a mains adapter.
fn adapter_name(name: &[u8]) -> (is: bool)
    ensures
        is == is_adapter_name(name@),
{
    starts_with(name, "AC".as_bytes()) || starts_with(name, "ADP".as_bytes()) || contains(
        name,
        "ACAD".as_bytes(),
    )
}

/// The class of a device with the given board name, chassis type and
/// battery: a handheld by its board, else a desktop or a laptop by its
/// chassis, else a laptop where it has a battery.
pub open spec fn device_type_of(
    board_name: Option<Seq<u8>>,
    chassis_type: Option<Seq<u8>>,
    has_battery: bool,
) -> DeviceType {
    let handheld = match board_name {
        Some(b) => contains_bytes(trimmed(b), "Jupiter".spec_bytes()) || contains_bytes(
            trimmed(b),
            "Galileo".spec_bytes(),
        ),
        None => false,
    };
    let chassis: u64 = match chassis_type {
        Some(c) => match parsed_u64(trimmed(c)) {
            Some(n) => if n <= u32::MAX { n } else { 0 },
            None => 0,
        },
        None => 0,
    };
    if handheld {
        DeviceType::SteamDeck
    } else if chassis_type.is_some() && is_desktop_chassis(chassis) {
        DeviceType::Desktop
    } else if chassis_type.is_some() && is_portable_chassis(chassis) {
        DeviceType::Laptop
    } else if has_battery {
        DeviceType::Laptop
    } else {
        DeviceType::Desktop
    }
}

/// Chassis types of machines that stay on a desk.
pub open spec fn is_desktop_chassis(chassis: u64) -> bool {
    chassis == 3 || chassis == 4 || chassis == 5 || chassis == 6 || chassis == 7 || chassis == 13
        || chassis == 15 || chassis == 16
}

/// Chassis types of machines that are carried.
pub open spec fn is_portable_chassis(chassis: u64) -> bool {
    chassis == 8 || chassis == 9 || chassis == 10 || chassis == 11 || chassis == 14 || chassis
        == 30 || chassis == 31
}

/// The power source that the supplies show: mains where any entry shows it;
/// battery where the battery is discharging; mains again where there is no
/// battery at all; else unknown.
pub open spec fn power_source_of(supplies: Seq<PowerSupply>) -> PowerSource {
    if exists|i: int| 0 <= i < supplies.len() && (#[trigger] supplies[i]).shows_mains() {
        PowerSource::AC
    } else if exists|i: int| 0 <= i < supplies.len() && (#[trigger] supplies[i]).shows_discharging() {
        PowerSource::Battery
    } else if !(exists|i: int| 0 <= i < supplies.len() && (#[trigger] supplies[i]).shows_battery()) {
        PowerSource::AC
    } else {
        PowerSource::Unknown
    }
}

/// Whether power saving is wanted: never on a desktop, elsewhere only on
/// battery.
pub open spec fn power_save_wanted(device_type: DeviceType, source: PowerSource) -> bool {
    device_type != DeviceType::Desktop && source == PowerSource::Battery
}

/// Power-aware decisions for one machine.
pub struct PowerManager {
    device_type: DeviceType,
}

impl PowerManager {
    /// The class of the device this manager decides for.
    pub closed spec fn kind(&self) -> DeviceType {
        self.device_type
    }

    /// A manager for the device with the given board name and chassis type
    /// (the text of the two firmware attributes, `None` where unreadable) and
    /// power supplies.
    pub fn new(
        board_name: Option<&str>,
        chassis_type: Option<&str>,
        supplies: &Vec<PowerSupply>,
    ) -> (m: Self)
        ensures
            m.kind() == device_type_of(
                match board_name {
                    Some(b) => Some(b.spec_bytes()),
                    None => None,
                },
                match chassis_type {
                    Some(c) => Some(c.spec_bytes()),
                    None => None,
                },
                exists|i: int|
                    0 <= i < supplies@.len() && (#[trigger] supplies@[i]).is_system_battery(),
            ),
    {
        PowerManager {
            device_type: Self::detect_device_type(
                board_name,
                chassis_type,
                Self::has_system_battery(supplies),
            ),
        }
    }

    /// Decides the class of the device.
    pub fn detect_device_type(
        board_name: Option<&str>,
        chassis_type: Option<&str>,
        has_battery: bool,
    ) -> (kind: DeviceType)
        ensures
            kind == device_type_of(
                match board_name {
                    Some(b) => Some(b.spec_bytes()),
                    None => None,
                },
                match chassis_type {
                    Some(c) => Some(c.spec_bytes()),
                    None => None,
                },
                has_battery,
            ),
    {
        match board_name {
            Some(board) => {
                let b = trim(board.as_bytes());
                if contains(b.as_slice(), "Jupiter".as_bytes()) || contains(
                    b.as_slice(),
                    "Galileo".as_bytes(),
                ) {
                    return DeviceType::SteamDeck;
                }
            },
            None => {},
        }
        match chassis_type {
            Some(chassis) => {
                let c = trim(chassis.as_bytes());
                let n: u64 = match parse_u64(c.as_slice()) {
                    Some(n) => if n <= 0xFFFF_FFFF { n } else { 0 },
                    None => 0,
                };
                if n == 3 || n == 4 || n == 5 || n == 6 || n == 7 || n == 13 || n == 15 || n
                    == 16 {
                    return DeviceType::Desktop;
                }
                if n == 8 || n == 9 || n == 10 || n == 11 || n == 14 || n == 30 || n == 31 {
                    return DeviceType::Laptop;
                }
            },
            None => {},
        }
        if has_battery {
            DeviceType::Laptop
        } else {
            DeviceType::Desktop
        }
    }

    /// Whether the machine has a battery of its own.
    pub fn has_system_battery(supplies: &Vec<PowerSupply>) -> (found: bool)
        ensures
            found == exists|i: int|
                0 <= i < supplies@.len() && (#[trigger] supplies@[i]).is_system_battery(),
    {
        let mut i: usize = 0;
        while i < supplies.len()
            invariant
                i <= supplies@.len(),
                forall|j: int| 0 <= j < i ==> !(#[trigger] supplies@[j]).is_system_battery(),
            decreases supplies@.len() - i,
        {
            let s = &supplies[i];
            if !peripheral(s.name.as_str().as_bytes(), true) && text_says(&s.kind, "Battery")
                && s.has_capacity {
                return true;
            }
            i += 1;
        }
        false
    }

    /// Decides the current power source from the supplies.
    pub fn detect_power_source(supplies: &Vec<PowerSupply>) -> (source: PowerSource)
        ensures
            source == power_source_of(supplies@),
    {
        let mut ac_online: bool = false;
        let mut battery_discharging: bool = false;
        let mut battery_found: bool = false;
        let mut i: usize = 0;
        while i < supplies.len()
            invariant
                i <= supplies@.len(),
                ac_online == exists|j: int| 0 <= j < i && (#[trigger] supplies@[j]).shows_mains(),
                battery_discharging == exists|j: int|
                    0 <= j < i && (#[trigger] supplies@[j]).shows_discharging(),
                battery_found == exists|j: int|
                    0 <= j < i && (#[trigger] supplies@[j]).shows_battery(),
            decreases supplies@.len() - i,
        {
            let s = &supplies[i];
            let name = s.name.as_str().as_bytes();
            let ghost old_ac = ac_online;
            let ghost old_dis = battery_discharging;
            let ghost old_found = battery_found;
            if !peripheral(name, false) {
                if adapter_name(name) && text_says(&s.online, "1") {
                    ac_online = true;
                }
                if battery_name(name) {
                    battery_found = true;
                    if text_says(&s.status, "Charging") || text_says(&s.status, "Full")
                        || text_says(&s.status, "Not charging") {
                        ac_online = true;
                    } else if text_says(&s.status, "Discharging") {
                        battery_discharging = true;
                    }
                }
            }
            proof {
                let here = supplies@[i as int];
                assert(ac_online == (old_ac || here.shows_mains()));
                assert(battery_found == (old_found || here.shows_battery()));
                lemma_status_words();
                assert(battery_discharging == (old_dis || here.shows_discharging()));
            }
            i += 1;
        }
        if ac_online {
            PowerSource::AC
        } else if battery_found && battery_discharging {
            PowerSource::Battery
        } else if !battery_found {
            PowerSource::AC
        } else {
            PowerSource::Unknown
        }
    }

    /// The current power source, read afresh from the supplies.
    pub fn power_source(&self, supplies: &Vec<PowerSupply>) -> (source: PowerSource)
        ensures
            source == power_source_of(supplies@),
    {
        Self::detect_power_source(supplies)
    }

    /// The class of the device.
    pub fn device_type(&self) -> (kind: &DeviceType)
        ensures
            *kind == self.kind(),
    {
        &self.device_type
    }

    /// Whether power saving is wanted, given the supplies as they are now.
    pub fn should_enable_power_save(&self, supplies: &Vec<PowerSupply>) -> (wanted: bool)
        ensures
            wanted == power_save_wanted(self.kind(), power_source_of(supplies@)),
    {
        let source = Self::detect_power_source(supplies);
        match self.device_type {
            DeviceType::Desktop => false,
            DeviceType::SteamDeck => source == PowerSource::Battery,
            DeviceType::Laptop => source == PowerSource::Battery,
        }
    }

    /// The charge of the battery in percent: what the first battery whose
    /// charge can be read says, if that is a number that fits 32 bits.
    pub fn battery_percentage(&self, supplies: &Vec<PowerSupply>) -> (percent: Option<u32>)
        ensures
            percent == charge_of(supplies@),
    {
        let mut i: usize = 0;
        while i < supplies.len()
            invariant
                i <= supplies@.len(),
                forall|j: int| 0 <= j < i ==> !(#[trigger] supplies@[j]).shows_charge(),
            decreases supplies@.len() - i,
        {
            let s = &supplies[i];
            if battery_name(s.name.as_str().as_bytes()) {
                match &s.capacity {
                    Some(text) => {
                        let body = trim(text.as_str().as_bytes());
                        proof {
                            lemma_first_charge(supplies@, i as int);
                        }
                        return match parse_u64(body.as_slice()) {
                            Some(n) => if n <= 0xFFFF_FFFF { Some(n as u32) } else { None },
                            None => None,
                        };
                    },
                    None => {},
                }
            }
            i += 1;
        }
        proof {
            lemma_no_charge(supplies@);
        }
        None
    }
}

/// The place of the first battery whose charge can be read.
pub open spec fn first_charge_at(supplies: Seq<PowerSupply>) -> int
    decreases supplies.len(),
{
    if supplies.len() == 0 {
        0
    } else if supplies[0].shows_charge() {
        0
    } else {
        1 + first_charge_at(supplies.drop_first())
    }
}

/// The charge in percent that the supplies show.
pub open spec fn charge_of(supplies: Seq<PowerSupply>) -> Option<u32> {
    let at = first_charge_at(supplies);
    if 0 <= at < supplies.len() {
        match supplies[at].capacity {
            Some(text) => match parsed_u64(trimmed(vstd::utf8::encode_utf8(text@))) {
                Some(n) => if n <= u32::MAX { Some(n as u32) } else { None },
                None => None,
            },
            None => None,
        }
    } else {
        None
    }
}

/// Where the first battery with a readable charge stands.
proof fn lemma_first_charge(supplies: Seq<PowerSupply>, at: int)
    requires
        0 <= at < supplies.len(),
        supplies[at].shows_charge(),
        forall|j: int| 0 <= j < at ==> !(#[trigger] supplies[j]).shows_charge(),
    ensures
        first_charge_at(supplies) == at,
    decreases supplies.len(),
{
    if at > 0 {
        let rest = supplies.drop_first();
        assert forall|j: int| 0 <= j < at - 1 implies !(#[trigger] rest[j]).shows_charge() by {
            assert(rest[j] == supplies[j + 1]);
        }
        lemma_first_charge(rest, at - 1);
    }
}

/// Without a battery with a readable charge, the search runs to the end.
proof fn lemma_no_charge(supplies: Seq<PowerSupply>)
    requires
        forall|j: int| 0 <= j < supplies.len() ==> !(#[trigger] supplies[j]).shows_charge(),
    ensures
        first_charge_at(supplies) == supplies.len(),
    decreases supplies.len(),
{
    if supplies.len() > 0 {
        let rest = supplies.drop_first();
        assert forall|j: int| 0 <= j < rest.len() implies !(#[trigger] rest[j]).shows_charge() by {
            assert(rest[j] == supplies[j + 1]);
        }
        lemma_no_charge(rest);
    }
}

/// The words for a battery on mains differ from the word for one that is
/// discharging.
proof fn lemma_status_words()
    ensures
        "Charging".spec_bytes() != "Discharging".spec_bytes(),
        "Full".spec_bytes() != "Discharging".spec_bytes(),
        "Not charging".spec_bytes() != "Discharging".spec_bytes(),
{
    reveal_strlit("Charging");
    reveal_strlit("Full");
    reveal_strlit("Not charging");
    reveal_strlit("Discharging");
    lemma_ascii_bytes("Charging");
    lemma_ascii_bytes("Full");
    lemma_ascii_bytes("Not charging");
    lemma_ascii_bytes("Discharging");
    assert("Charging".spec_bytes()[0] != "Discharging".spec_bytes()[0]);
    assert("Full".spec_bytes()[0] != "Discharging".spec_bytes()[0]);
    assert("Not charging".spec_bytes()[0] != "Discharging".spec_bytes()[0]);
}

/// The bytes of an ASCII text are its characters.
proof fn lemma_ascii_bytes(s: &str)
    requires
        s.is_ascii(),
    ensures
        s.spec_bytes() =~= Seq::new(s@.len(), |i: int| s@[i] as u8),
{
    vstd::string::is_ascii_spec_bytes(s);
}

} // verus!
