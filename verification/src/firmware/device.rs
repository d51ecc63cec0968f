//! The hardware gate: firmware is managed only on the one handheld model
//! with the one wireless adapter it was made for.

use crate::text::same_text;
use crate::text::{trim_text, trimmed_text};
use vstd::prelude::*;

verus! {

/// What was found out about the device. Every text is without white space at
/// its ends and not empty.
#[derive(Debug, Clone)]
pub struct DeviceInfo {
    pub board_vendor: Option<String>,
    pub board_name: Option<String>,
    pub wifi_vendor: Option<String>,
    pub wifi_device: Option<String>,
    pub wifi_subsys_vendor: Option<String>,
    pub wifi_subsys_device: Option<String>,
    dmi_valid: bool,
    wifi_valid: bool,
}

/// Whether an attribute is there and says `expected`.
pub open spec fn attribute_is(value: Option<String>, expected: Seq<char>) -> bool {
    match value {
        Some(v) => v@ == expected,
        None => false,
    }
}

/// Whether the board is that of the supported handheld.
pub open spec fn board_supported(vendor: Option<String>, name: Option<String>) -> bool {
    attribute_is(vendor, "Valve"@) && attribute_is(name, "Galileo"@)
}

/// Whether the wireless adapter is the supported one, by its PCI
/// identifiers.
pub open spec fn adapter_supported(
    vendor: Option<String>,
    device: Option<String>,
    subsys_vendor: Option<String>,
    subsys_device: Option<String>,
) -> bool {
    &&& attribute_is(vendor, "0x17cb"@)
    &&& attribute_is(device, "0x1103"@)
    &&& attribute_is(subsys_vendor, "0x17cb"@)
    &&& attribute_is(subsys_device, "0x0108"@)
}

/// What an attribute file says: its text without white space at its ends,
/// where the file could be read and that text is not empty.
pub open spec fn attribute_of(content: Option<Seq<char>>) -> Option<Seq<char>> {
    match content {
        Some(text) => if trimmed_text(text).len() > 0 {
            Some(trimmed_text(text))
        } else {
            None
        },
        None => None,
    }
}

/// Reads an attribute from the text of its file, `None` where the file could
/// not be read.
pub fn read_sysfs(content: Option<&str>) -> (value: Option<String>)
    ensures
        match value {
            Some(v) => attribute_of(
                match content {
                    Some(c) => Some(c@),
                    None => None,
                },
            ) == Some(v@),
            None => attribute_of(
                match content {
                    Some(c) => Some(c@),
                    None => None,
                },
            ).is_none(),
        },
{
    match content {
        Some(text) => {
            let body = trim_text(text);
            if body.as_str().unicode_len() > 0 {
                Some(body)
            } else {
                None
            }
        },
        None => None,
    }
}

/// Whether an attribute is there and says `expected`.
fn is_attribute(value: &Option<String>, expected: &str) -> (is: bool)
    ensures
        is == attribute_is(*value, expected@),
{
    match value {
        Some(v) => same_text(v.as_str(), expected),
        None => false,
    }
}

impl DeviceInfo {
    /// The attributes held: vendor and name of the board, then vendor,
    /// device, subsystem vendor and subsystem device of the adapter.
    pub closed spec fn attributes(&self) -> Seq<Option<String>> {
        seq![
            self.board_vendor,
            self.board_name,
            self.wifi_vendor,
            self.wifi_device,
            self.wifi_subsys_vendor,
            self.wifi_subsys_device,
        ]
    }

    /// Whether the board was found to be the supported one.
    pub closed spec fn dmi_ok(&self) -> bool {
        self.dmi_valid
    }

    /// Whether the adapter was found to be the supported one.
    pub closed spec fn wifi_ok(&self) -> bool {
        self.wifi_valid
    }

    /// Judges the device by its attributes, each `None` where it could not
    /// be read.
    pub fn detect(
        board_vendor: Option<String>,
        board_name: Option<String>,
        wifi_vendor: Option<String>,
        wifi_device: Option<String>,
        wifi_subsys_vendor: Option<String>,
        wifi_subsys_device: Option<String>,
    ) -> (info: Self)
        ensures
            info.attributes() == seq![
                board_vendor,
                board_name,
                wifi_vendor,
                wifi_device,
                wifi_subsys_vendor,
                wifi_subsys_device,
            ],
            info.dmi_ok() == board_supported(board_vendor, board_name),
            info.wifi_ok() == adapter_supported(
                wifi_vendor,
                wifi_device,
                wifi_subsys_vendor,
                wifi_subsys_device,
            ),
    {
        let dmi_valid: bool = is_attribute(&board_vendor, "Valve") && is_attribute(
            &board_name,
            "Galileo",
        );
        let wifi_valid: bool = is_attribute(&wifi_vendor, "0x17cb") && is_attribute(
            &wifi_device,
            "0x1103",
        ) && is_attribute(&wifi_subsys_vendor, "0x17cb") && is_attribute(
            &wifi_subsys_device,
            "0x0108",
        );
        DeviceInfo {
            board_vendor,
            board_name,
            wifi_vendor,
            wifi_device,
            wifi_subsys_vendor,
            wifi_subsys_device,
            dmi_valid,
            wifi_valid,
        }
    }

    /// Whether this is the supported handheld with the supported adapter.
    pub fn is_supported(&self) -> (supported: bool)
        ensures
            supported == (self.dmi_ok() && self.wifi_ok()),
    {
        self.dmi_valid && self.wifi_valid
    }

    /// Whether the wireless adapter is the supported one.
    pub fn is_wifi_supported(&self) -> (supported: bool)
        ensures
            supported == self.wifi_ok(),
    {
        self.wifi_valid
    }
}

} // verus!
