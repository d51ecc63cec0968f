//! Firmware versions, read from firmware images.

use crate::firmware::FirmwareError;
use crate::text::{contains_bytes, find_subsequence, occurs_at, starts_with, starts_with_bytes};
use vstd::prelude::*;
use vstd::string::StringSliceAdditionalSpecFns;

verus! {

/// The version of a firmware image.
#[derive(Debug, Clone)]
pub struct FirmwareVersion {
    /// The full version string.
    pub version_string: String,
}

/// The words that stand before the version in an image.
pub open spec fn version_marker() -> Seq<u8> {
    "QC_IMAGE_VERSION_STRING=".spec_bytes()
}

/// Whether a byte is a printable ASCII character.
pub open spec fn is_printable(b: u8) -> bool {
    0x20 <= b < 0x7F
}

/// The first offset from `from` on that holds no printable character, or the
/// length of `data`.
pub open spec fn printable_end(data: Seq<u8>, from: int) -> int
    decreases data.len() - from,
{
    if from >= data.len() || !is_printable(data[from]) {
        from
    } else {
        printable_end(data, from + 1)
    }
}

/// Where the marker first stands in `data`; `data.len()` where it does not.
pub open spec fn marker_at(data: Seq<u8>) -> int {
    if contains_bytes(data, version_marker()) {
        choose|at: int|
            occurs_at(data, version_marker(), at) && forall|j: int|
                0 <= j < at ==> !occurs_at(data, version_marker(), j)
    } else {
        data.len() as int
    }
}

/// The version that an image holds: the printable characters that follow
/// the first marker, of which there must be one at least.
pub open spec fn version_in(data: Seq<u8>) -> Option<Seq<u8>> {
    if contains_bytes(data, version_marker()) {
        let start = marker_at(data) + version_marker().len();
        let end = printable_end(data, start);
        if end > start {
            Some(data.subrange(start, end))
        } else {
            None
        }
    } else {
        None
    }
}

/// The characters of ASCII bytes.
pub open spec fn ascii_chars(bytes: Seq<u8>) -> Seq<char> {
    Seq::new(bytes.len(), |i: int| bytes[i] as char)
}

/// Makes a text of bytes. Wraps `String::from_utf8_lossy` of the standard
/// library, of which only this is claimed: bytes that are all ASCII become
/// the text with one character for each byte. Nothing is said of other
/// input.
#[verifier::external_body]
fn text_of_ascii(bytes: &[u8]) -> (text: String)
    ensures
        (forall|i: int| 0 <= i < bytes@.len() ==> bytes@[i] < 0x80) ==> text@ == ascii_chars(
            bytes@,
        ),
{
    String::from_utf8_lossy(bytes).into_owned()
}

/// The end of the printable run that starts at `from`.
proof fn lemma_printable_end(data: Seq<u8>, from: int, end: int)
    requires
        0 <= from <= end <= data.len(),
        forall|j: int| from <= j < end ==> is_printable(#[trigger] data[j]),
        end < data.len() ==> !is_printable(data[end]),
    ensures
        printable_end(data, from) == end,
    decreases end - from,
{
    if from < end {
        lemma_printable_end(data, from + 1, end);
    }
}

/// Extracts the version string from the bytes of a firmware image.
pub fn extract_version_from_bytes(data: &[u8]) -> (version: Result<String, FirmwareError>)
    ensures
        match version {
            Ok(text) => version_in(data@).is_some() && text@ == ascii_chars(
                version_in(data@).unwrap(),
            ),
            Err(e) => version_in(data@).is_none() && e == FirmwareError::VersionNotFound,
        },
{
    let pattern = "QC_IMAGE_VERSION_STRING=".as_bytes();
    let pos: usize = match find_subsequence(data, pattern) {
        Some(p) => p,
        None => {
            return Err(FirmwareError::VersionNotFound);
        },
    };
    proof {
        assert(contains_bytes(data@, version_marker()));
        let chosen = marker_at(data@);
        assert(chosen == pos) by {
            if chosen < pos {
                assert(!occurs_at(data@, version_marker(), chosen));
            } else if pos < chosen {
                assert(!occurs_at(data@, version_marker(), pos as int));
            }
        }
    }
    let total: usize = data.len();
    assert(pos + pattern@.len() <= total);
    let start: usize = pos + pattern.len();
    let mut end: usize = start;
    while end < data.len() && data[end] >= 0x20 && data[end] < 0x7F
        invariant
            start <= end <= data@.len(),
            forall|j: int| start <= j < end ==> is_printable(#[trigger] data@[j]),
        decreases data@.len() - end,
    {
        end += 1;
    }
    proof {
        lemma_printable_end(data@, start as int, end as int);
    }
    if end > start {
        let run = crate::text::copy_range(data, start, end);
        Ok(text_of_ascii(run.as_slice()))
    } else {
        Err(FirmwareError::VersionNotFound)
    }
}

/// The firmware directories that are looked into, in this order: the one of
/// the handheld's own system, the upstream one, and two generic ones.
pub open spec fn firmware_dirs() -> Seq<Seq<char>> {
    seq![
        "/lib/firmware/ath11k/QCA206X/hw2.1"@,
        "/lib/firmware/ath11k/QCA2066/hw2.1"@,
        "/lib/firmware/ath11k/WCN6855/hw2.1"@,
        "/lib/firmware/ath11k/WCN6855/hw2.0"@,
    ]
}

/// The firmware directories that are looked into, in order.
pub fn firmware_candidates() -> (dirs: Vec<&'static str>)
    ensures
        dirs@.len() == 4,
        forall|i: int| 0 <= i < 4 ==> (#[trigger] dirs@[i])@ == firmware_dirs()[i],
{
    let mut dirs: Vec<&'static str> = Vec::new();
    dirs.push("/lib/firmware/ath11k/QCA206X/hw2.1");
    dirs.push("/lib/firmware/ath11k/QCA2066/hw2.1");
    dirs.push("/lib/firmware/ath11k/WCN6855/hw2.1");
    dirs.push("/lib/firmware/ath11k/WCN6855/hw2.0");
    dirs
}

/// Picks the firmware directory: the first of the candidates that holds the
/// firmware. `holds_firmware` says of each candidate, in order, whether it
/// is there and holds the main image; a candidate it does not speak of holds
/// none.
pub fn detect_firmware_path(holds_firmware: &Vec<bool>) -> (dir: Result<&'static str, FirmwareError>)
    ensures
        match dir {
            Ok(path) => exists|i: int|
                0 <= i < 4 && i < holds_firmware@.len() && holds_firmware@[i] && path@
                    == firmware_dirs()[i] && forall|j: int| 0 <= j < i ==> !holds_firmware@[j],
            Err(e) => e == FirmwareError::FirmwareNotFound && forall|j: int|
                0 <= j < 4 && j < holds_firmware@.len() ==> !holds_firmware@[j],
        },
{
    let dirs = firmware_candidates();
    let mut i: usize = 0;
    while i < 4 && i < holds_firmware.len()
        invariant
            i <= 4,
            dirs@.len() == 4,
            forall|k: int| 0 <= k < 4 ==> (#[trigger] dirs@[k])@ == firmware_dirs()[k],
            forall|j: int| 0 <= j < i && j < holds_firmware@.len() ==> !holds_firmware@[j],
        decreases 4 - i,
    {
        if holds_firmware[i] {
            return Ok(dirs[i]);
        }
        i += 1;
    }
    Err(FirmwareError::FirmwareNotFound)
}

impl FirmwareVersion {
    /// The version of installed firmware, from the bytes of its main image
    /// after decompression.
    pub fn from_installed(image: &[u8]) -> (version: Result<Self, FirmwareError>)
        ensures
            match version {
                Ok(v) => version_in(image@).is_some() && v.version_string@ == ascii_chars(
                    version_in(image@).unwrap(),
                ),
                Err(e) => version_in(image@).is_none() && e == FirmwareError::VersionNotFound,
            },
    {
        match extract_version_from_bytes(image) {
            Ok(version_string) => Ok(FirmwareVersion { version_string }),
            Err(e) => Err(e),
        }
    }

    /// The version of firmware, from the bytes of its main image as it is
    /// distributed.
    pub fn from_raw(image: &[u8]) -> (version: Result<Self, FirmwareError>)
        ensures
            match version {
                Ok(v) => version_in(image@).is_some() && v.version_string@ == ascii_chars(
                    version_in(image@).unwrap(),
                ),
                Err(e) => version_in(image@).is_none() && e == FirmwareError::VersionNotFound,
            },
    {
        match extract_version_from_bytes(image) {
            Ok(version_string) => Ok(FirmwareVersion { version_string }),
            Err(e) => Err(e),
        }
    }

    /// Whether this is the stock firmware of the handheld's maker, whose
    /// versions begin with `CI_WLAN`.
    pub fn is_valve_stock(&self) -> (stock: bool)
        ensures
            stock == starts_with_bytes(
                vstd::utf8::encode_utf8(self.version_string@),
                "CI_WLAN".spec_bytes(),
            ),
    {
        starts_with(self.version_string.as_str().as_bytes(), "CI_WLAN".as_bytes())
    }
}

/// The latest upstream version, from the first part of the upstream image as
/// it was fetched.
pub fn get_upstream_version(fetched: &[u8]) -> (version: Result<FirmwareVersion, FirmwareError>)
    ensures
        match version {
            Ok(v) => version_in(fetched@).is_some() && v.version_string@ == ascii_chars(
                version_in(fetched@).unwrap(),
            ),
            Err(e) => version_in(fetched@).is_none() && e == FirmwareError::VersionNotFound,
        },
{
    FirmwareVersion::from_raw(fetched)
}

} // verus!
