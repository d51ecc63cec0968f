//! What the connectivity service reports: wireless devices, access points
//! and their bands.

use crate::text::{equal, starts_with, starts_with_bytes};
use vstd::prelude::*;
use vstd::std_specs::convert::FromSpecImpl;
use vstd::string::StringSliceAdditionalSpecFns;

verus! {

/// Wireless frequency band.
#[derive(Debug, Clone, Copy, PartialEq, Eq, Structural)]
pub enum WifiBand {
    Band2_4GHz,
    Band5GHz,
    Band6GHz,
    Unknown,
}

/// The band that a frequency in MHz lies in.
pub open spec fn band_of(freq: u32) -> WifiBand {
    if 2400 <= freq <= 2500 {
        WifiBand::Band2_4GHz
    } else if 5150 <= freq <= 5924 {
        WifiBand::Band5GHz
    } else if 5925 <= freq <= 7125 {
        WifiBand::Band6GHz
    } else {
        WifiBand::Unknown
    }
}

impl WifiBand {
    /// Determines the band from a frequency in MHz.
    pub fn from_frequency(freq: u32) -> (band: Self)
        ensures
            band == band_of(freq),
    {
        if 2400 <= freq && freq <= 2500 {
            WifiBand::Band2_4GHz
        } else if 5150 <= freq && freq <= 5924 {
            WifiBand::Band5GHz
        } else if 5925 <= freq && freq <= 7125 {
            WifiBand::Band6GHz
        } else {
            WifiBand::Unknown
        }
    }
}

/// One access point as the connectivity service saw it.
#[derive(Debug, Clone)]
pub struct AccessPoint {
    /// The service's handle for this access point.
    pub path: String,
    pub ssid: String,
    pub bssid: String,
    /// Frequency in MHz.
    pub frequency: u32,
    pub band: WifiBand,
    /// Signal strength in dBm.
    pub signal_strength: i32,
    /// Maximum PHY bitrate in Kbit/s.
    pub max_bitrate: u32,
}

/// The score bonus of a band.
pub open spec fn band_bias(band: WifiBand, bias_5ghz: i32, bias_6ghz: i32) -> int {
    match band {
        WifiBand::Band2_4GHz => 0,
        WifiBand::Band5GHz => bias_5ghz as int,
        WifiBand::Band6GHz => bias_6ghz as int,
        WifiBand::Unknown => 0,
    }
}

/// The signal floor of a band, in dBm. An unknown band is held to the floor
/// of 2.4 GHz.
pub open spec fn band_floor(band: WifiBand, min_2g: i32, min_5g: i32, min_6g: i32) -> int {
    match band {
        WifiBand::Band2_4GHz => min_2g as int,
        WifiBand::Band5GHz => min_5g as int,
        WifiBand::Band6GHz => min_6g as int,
        WifiBand::Unknown => min_2g as int,
    }
}

impl AccessPoint {
    /// An access point from what the connectivity service says of it: the
    /// band follows from the frequency, the signal in dBm from the strength
    /// on the scale 0 to 100.
    pub fn from_properties(
        path: String,
        ssid: String,
        bssid: String,
        frequency: u32,
        strength: u8,
        max_bitrate: u32,
    ) -> (ap: Self)
        ensures
            ap.path == path,
            ap.ssid == ssid,
            ap.bssid == bssid,
            ap.frequency == frequency,
            ap.band == band_of(frequency),
            ap.signal_strength == dbm_of(strength),
            ap.max_bitrate == max_bitrate,
    {
        AccessPoint {
            path,
            ssid,
            bssid,
            frequency,
            band: WifiBand::from_frequency(frequency),
            signal_strength: strength_to_dbm(strength),
            max_bitrate,
        }
    }

    /// The roaming score: signal strength plus the bias of the band.
    pub open spec fn score_of(&self, bias_5ghz: i32, bias_6ghz: i32) -> int {
        self.signal_strength + band_bias(self.band, bias_5ghz, bias_6ghz)
    }

    /// Whether the signal reaches the floor of the band.
    pub open spec fn usable(&self, min_2g: i32, min_5g: i32, min_6g: i32) -> bool {
        self.signal_strength >= band_floor(self.band, min_2g, min_5g, min_6g)
    }

    /// The roaming score: signal strength plus the bias of the band.
    pub fn score(&self, bias_5ghz: i32, bias_6ghz: i32) -> (score: i32)
        requires
            i32::MIN <= self.score_of(bias_5ghz, bias_6ghz) <= i32::MAX,
        ensures
            score == self.score_of(bias_5ghz, bias_6ghz),
    {
        let bias: i32 = match self.band {
            WifiBand::Band2_4GHz => 0,
            WifiBand::Band5GHz => bias_5ghz,
            WifiBand::Band6GHz => bias_6ghz,
            WifiBand::Unknown => 0,
        };
        self.signal_strength + bias
    }

    /// The roaming score in a width in which it always fits.
    pub fn wide_score(&self, bias_5ghz: i32, bias_6ghz: i32) -> (score: i64)
        ensures
            score == self.score_of(bias_5ghz, bias_6ghz),
    {
        let bias: i64 = match self.band {
            WifiBand::Band2_4GHz => 0,
            WifiBand::Band5GHz => bias_5ghz as i64,
            WifiBand::Band6GHz => bias_6ghz as i64,
            WifiBand::Unknown => 0,
        };
        self.signal_strength as i64 + bias
    }

    /// Whether the signal reaches the floor of the band.
    pub fn signal_usable(&self, min_2g: i32, min_5g: i32, min_6g: i32) -> (ok: bool)
        ensures
            ok == self.usable(min_2g, min_5g, min_6g),
    {
        let floor: i32 = match self.band {
            WifiBand::Band2_4GHz => min_2g,
            WifiBand::Band5GHz => min_5g,
            WifiBand::Band6GHz => min_6g,
            WifiBand::Unknown => min_2g,
        };
        self.signal_strength >= floor
    }
}

/// Connection state of a device, as the connectivity service numbers it.
#[derive(Debug, Clone, Copy, PartialEq, Eq, Structural)]
pub enum DeviceState {
    Unknown,
    Unmanaged,
    Unavailable,
    Disconnected,
    Preparing,
    ConfigIp,
    NeedAuth,
    Activated,
    Deactivating,
    Failed,
}

/// The state that a state number stands for.
pub open spec fn state_of(state: u32) -> DeviceState {
    if state == 10 {
        DeviceState::Unmanaged
    } else if state == 20 {
        DeviceState::Unavailable
    } else if state == 30 {
        DeviceState::Disconnected
    } else if state == 40 {
        DeviceState::Preparing
    } else if state == 70 {
        DeviceState::ConfigIp
    } else if state == 60 {
        DeviceState::NeedAuth
    } else if state == 100 {
        DeviceState::Activated
    } else if state == 110 {
        DeviceState::Deactivating
    } else if state == 120 {
        DeviceState::Failed
    } else {
        DeviceState::Unknown
    }
}

impl From<u32> for DeviceState {
    fn from(state: u32) -> (s: Self) {
        if state == 10 {
            DeviceState::Unmanaged
        } else if state == 20 {
            DeviceState::Unavailable
        } else if state == 30 {
            DeviceState::Disconnected
        } else if state == 40 {
            DeviceState::Preparing
        } else if state == 70 {
            DeviceState::ConfigIp
        } else if state == 60 {
            DeviceState::NeedAuth
        } else if state == 100 {
            DeviceState::Activated
        } else if state == 110 {
            DeviceState::Deactivating
        } else if state == 120 {
            DeviceState::Failed
        } else {
            DeviceState::Unknown
        }
    }
}

impl FromSpecImpl<u32> for DeviceState {
    open spec fn obeys_from_spec() -> bool {
        true
    }

    open spec fn from_spec(state: u32) -> Self {
        state_of(state)
    }
}

/// The channel number of a frequency in MHz: by the band's channel raster,
/// with channel 14 at 2484 MHz; zero outside the bands and below the first
/// channel of a band.
pub open spec fn channel_of(freq: u32) -> u32 {
    if freq == 2484 {
        14
    } else if 2407 <= freq <= 2500 {
        ((freq - 2407) / 5) as u32
    } else if 5150 <= freq <= 5900 {
        ((freq - 5000) / 5) as u32
    } else if 5950 <= freq <= 7125 {
        ((freq - 5950) / 5) as u32
    } else {
        0
    }
}

/// Converts a frequency in MHz to its channel number.
pub fn freq_to_channel(freq: u32) -> (channel: u32)
    ensures
        channel == channel_of(freq),
{
    if freq == 2484 {
        14
    } else if 2407 <= freq && freq <= 2500 {
        (freq - 2407) / 5
    } else if 5150 <= freq && freq <= 5900 {
        (freq - 5000) / 5
    } else if 5950 <= freq && freq <= 7125 {
        (freq - 5950) / 5
    } else {
        0
    }
}

/// One wireless device as the connectivity service reports it.
#[derive(Debug, Clone)]
pub struct WirelessDevice {
    /// The service's handle for this device.
    pub path: String,
    pub interface: String,
    pub state: DeviceState,
    /// Current bitrate in Kbit/s.
    pub bitrate: u32,
    pub active_ap: Option<AccessPoint>,
}

/// The signal in dBm that a strength on the scale 0 to 100 stands for:
/// -100 dBm at 0, -30 dBm at 100, linear in between and rounded towards zero.
pub open spec fn dbm_of(strength: u8) -> int {
    -100 + (strength as int * 70) / 100
}

/// Converts a strength on the scale 0 to 100 to dBm.
pub fn strength_to_dbm(strength: u8) -> (dbm: i32)
    ensures
        dbm == dbm_of(strength),
        strength <= 100 ==> -100 <= dbm <= -30,
{
    let s: i32 = strength as i32;
    -100 + s * 70 / 100
}

/// How good a signal is, for display.
#[derive(Debug, Clone, Copy, PartialEq, Eq, Structural)]
pub enum SignalQuality {
    Excellent,
    Good,
    Fair,
    Poor,
}

/// The quality of a signal in dBm: excellent from -50, good from -60, fair
/// from -70, poor below.
pub open spec fn quality_of(signal_dbm: i32) -> SignalQuality {
    if signal_dbm >= -50 {
        SignalQuality::Excellent
    } else if signal_dbm >= -60 {
        SignalQuality::Good
    } else if signal_dbm >= -70 {
        SignalQuality::Fair
    } else {
        SignalQuality::Poor
    }
}

/// Classifies a signal in dBm.
pub fn signal_quality(signal_dbm: i32) -> (quality: SignalQuality)
    ensures
        quality == quality_of(signal_dbm),
{
    if signal_dbm >= -50 {
        SignalQuality::Excellent
    } else if signal_dbm >= -60 {
        SignalQuality::Good
    } else if signal_dbm >= -70 {
        SignalQuality::Fair
    } else {
        SignalQuality::Poor
    }
}

/// The number by which the connectivity service marks a wireless device.
pub const WIRELESS_DEVICE_TYPE: u32 = 2;

/// Whether a device is listed: it is a wireless one, and its interface is
/// no virtual one.
pub fn is_listed_device(device_type: u32, interface: &str) -> (listed: bool)
    ensures
        listed == (device_type == WIRELESS_DEVICE_TYPE && !virtual_name(interface.spec_bytes())),
{
    device_type == WIRELESS_DEVICE_TYPE && !is_virtual_interface(interface)
}

/// Whether a handle names an access point: it is neither empty nor the root.
pub fn is_access_point_path(path: &str) -> (names: bool)
    ensures
        names == (path.spec_bytes().len() > 0 && path.spec_bytes() != "/".spec_bytes()),
{
    path.as_bytes().len() > 0 && !equal(path.as_bytes(), "/".as_bytes())
}

/// Whether a name is that of a virtual interface: a container or virtual
/// bridge, a virtual ethernet pair, a tunnel, a tap or the loopback.
pub open spec fn virtual_name(name: Seq<u8>) -> bool {
    ||| starts_with_bytes(name, "docker".spec_bytes())
    ||| starts_with_bytes(name, "veth".spec_bytes())
    ||| starts_with_bytes(name, "virbr".spec_bytes())
    ||| starts_with_bytes(name, "tun".spec_bytes())
    ||| starts_with_bytes(name, "tap".spec_bytes())
    ||| starts_with_bytes(name, "br-".spec_bytes())
    ||| starts_with_bytes(name, "lo".spec_bytes())
}

/// Whether an interface is virtual and therefore left alone.
pub fn is_virtual_interface(name: &str) -> (is_virtual: bool)
    ensures
        is_virtual == virtual_name(name.spec_bytes()),
{
    let n = name.as_bytes();
    starts_with(n, "docker".as_bytes()) || starts_with(n, "veth".as_bytes()) || starts_with(
        n,
        "virbr".as_bytes(),
    ) || starts_with(n, "tun".as_bytes()) || starts_with(n, "tap".as_bytes()) || starts_with(
        n,
        "br-".as_bytes(),
    ) || starts_with(n, "lo".as_bytes())
}

} // verus!
