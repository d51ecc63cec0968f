//! Tuning of the wireless backend: which backend is active, and what its
//! configuration file is to hold.

use crate::text::{contains, contains_bytes};
use vstd::prelude::*;
use vstd::string::{StringExecFns, StringSliceAdditionalSpecFns};

verus! {

/// The wireless backend in use.
#[derive(Debug, Clone, Copy, PartialEq, Eq, Structural)]
pub enum WifiBackend {
    Iwd,
    WpaSupplicant,
    Unknown,
}

/// What was found out about the backends on this machine.
#[derive(Debug, Clone)]
pub struct BackendProbe {
    /// Whether the `iwd` process runs.
    pub iwd_running: bool,
    /// The text of every configuration file of the network manager that
    /// could be read.
    pub manager_configs: Vec<String>,
    /// Whether the `wpa_supplicant` process runs.
    pub wpa_supplicant_running: bool,
}

/// Whether a configuration file of the network manager selects `iwd`.
pub open spec fn selects_iwd(config: String) -> bool {
    contains_bytes(vstd::utf8::encode_utf8(config@), "wifi.backend=iwd".spec_bytes())
}

/// The backend that a probe shows: `iwd` where it runs or is selected, else
/// `wpa_supplicant` where that runs.
pub open spec fn backend_of(probe: BackendProbe) -> WifiBackend {
    if probe.iwd_running || exists|i: int|
        0 <= i < probe.manager_configs@.len() && selects_iwd(
            #[trigger] probe.manager_configs@[i],
        ) {
        WifiBackend::Iwd
    } else if probe.wpa_supplicant_running {
        WifiBackend::WpaSupplicant
    } else {
        WifiBackend::Unknown
    }
}

/// What is to be done to the backend's configuration file.
#[derive(Debug, Clone)]
pub enum BackendPlan {
    /// Leave everything as it is.
    Nothing,
    /// Create the file with this content, then restart the backend.
    Create(String),
    /// Append this text to the file.
    Append(String),
}

/// A plan as a mathematical value.
pub enum PlanModel {
    Nothing,
    Create(Seq<char>),
    Append(Seq<char>),
}

/// The configuration written for `iwd` where it has none.
pub open spec fn iwd_config(disable_periodic_scan: bool) -> Seq<char> {
    "[General]\n# Use control port over nl80211 for better performance\nControlPortOverNL80211=true\n\n# Roaming thresholds (dBm)\nRoamThreshold=-75\nRoamThreshold5G=-80\n\n# Randomize MAC per network for privacy\nAddressRandomization=network\n\n# Enable Management Frame Protection\nManagementFrameProtection=1\n\n[Scan]\n# Disable periodic scanning when connected (reduces latency spikes)\nDisablePeriodicScan="@
        + (if disable_periodic_scan {
        "true"@
    } else {
        "false"@
    })
        + "\n\n[Rank]\n# Prefer 5GHz and 6GHz bands\nBandModifier2_4GHz=1.0\nBandModifier5GHz=2.0\nBandModifier6GHz=3.0\n"@
}

/// The plan for `iwd`, given the present text of its configuration file,
/// `None` where there is no file. A missing file is created; a file that
/// does not speak of periodic scans and has no scan section gets one where
/// periodic scans are to be disabled; any other file is left alone.
pub open spec fn iwd_plan(disable_periodic_scan: bool, existing: Option<Seq<u8>>) -> PlanModel {
    match existing {
        None => PlanModel::Create(iwd_config(disable_periodic_scan)),
        Some(content) => if contains_bytes(content, "DisablePeriodicScan".spec_bytes()) {
            PlanModel::Nothing
        } else if !contains_bytes(content, "[Scan]".spec_bytes()) && disable_periodic_scan {
            PlanModel::Append("\n[Scan]\nDisablePeriodicScan=true\n"@)
        } else {
            PlanModel::Nothing
        },
    }
}

impl View for BackendPlan {
    type V = PlanModel;

    open spec fn view(&self) -> PlanModel {
        match self {
            BackendPlan::Nothing => PlanModel::Nothing,
            BackendPlan::Create(text) => PlanModel::Create(text@),
            BackendPlan::Append(text) => PlanModel::Append(text@),
        }
    }
}

/// Tunes the active wireless backend.
pub struct BackendTuner {
    backend: WifiBackend,
    disable_periodic_scan: bool,
}

impl BackendTuner {
    /// The backend this tuner works on.
    pub closed spec fn kind(&self) -> WifiBackend {
        self.backend
    }

    /// Whether this tuner disables periodic scans.
    pub closed spec fn disables_scan(&self) -> bool {
        self.disable_periodic_scan
    }

    /// A tuner for the backend that the probe shows.
    pub fn new(disable_periodic_scan: bool, probe: &BackendProbe) -> (t: Self)
        ensures
            t.kind() == backend_of(*probe),
            t.disables_scan() == disable_periodic_scan,
    {
        BackendTuner { backend: Self::detect_backend(probe), disable_periodic_scan }
    }

    /// Decides which backend is active.
    pub fn detect_backend(probe: &BackendProbe) -> (backend: WifiBackend)
        ensures
            backend == backend_of(*probe),
    {
        if probe.iwd_running {
            return WifiBackend::Iwd;
        }
        let mut i: usize = 0;
        while i < probe.manager_configs.len()
            invariant
                i <= probe.manager_configs@.len(),
                forall|j: int| 0 <= j < i ==> !selects_iwd(#[trigger] probe.manager_configs@[j]),
            decreases probe.manager_configs@.len() - i,
        {
            if contains(
                probe.manager_configs[i].as_str().as_bytes(),
                "wifi.backend=iwd".as_bytes(),
            ) {
                return WifiBackend::Iwd;
            }
            i += 1;
        }
        if probe.wpa_supplicant_running {
            WifiBackend::WpaSupplicant
        } else {
            WifiBackend::Unknown
        }
    }

    /// The backend this tuner works on.
    pub fn backend(&self) -> (backend: &WifiBackend)
        ensures
            *backend == self.kind(),
    {
        &self.backend
    }

    /// What is to be done for the active backend, given the present text of
    /// the configuration file of `iwd`, `None` where there is no file. Only
    /// `iwd` is tuned.
    pub fn apply(&self, existing_config: Option<&str>) -> (plan: BackendPlan)
        ensures
            plan@ == match self.kind() {
                WifiBackend::Iwd => iwd_plan(
                    self.disables_scan(),
                    match existing_config {
                        Some(c) => Some(c.spec_bytes()),
                        None => None,
                    },
                ),
                _ => PlanModel::Nothing,
            },
    {
        match self.backend {
            WifiBackend::Iwd => self.tune_iwd(existing_config),
            WifiBackend::WpaSupplicant => self.tune_wpa_supplicant(),
            WifiBackend::Unknown => BackendPlan::Nothing,
        }
    }

    /// The plan for `iwd`.
    pub fn tune_iwd(&self, existing_config: Option<&str>) -> (plan: BackendPlan)
        ensures
            plan@ == iwd_plan(
                self.disables_scan(),
                match existing_config {
                    Some(c) => Some(c.spec_bytes()),
                    None => None,
                },
            ),
    {
        match existing_config {
            Some(content) => self.update_iwd_config(content),
            None => {
                let mut config = String::from_str(
                    "[General]\n# Use control port over nl80211 for better performance\nControlPortOverNL80211=true\n\n# Roaming thresholds (dBm)\nRoamThreshold=-75\nRoamThreshold5G=-80\n\n# Randomize MAC per network for privacy\nAddressRandomization=network\n\n# Enable Management Frame Protection\nManagementFrameProtection=1\n\n[Scan]\n# Disable periodic scanning when connected (reduces latency spikes)\nDisablePeriodicScan=",
                );
                if self.disable_periodic_scan {
                    config.append("true");
                } else {
                    config.append("false");
                }
                config.append(
                    "\n\n[Rank]\n# Prefer 5GHz and 6GHz bands\nBandModifier2_4GHz=1.0\nBandModifier5GHz=2.0\nBandModifier6GHz=3.0\n",
                );
                BackendPlan::Create(config)
            },
        }
    }

    /// The plan for a configuration file of `iwd` that exists already.
    pub fn update_iwd_config(&self, content: &str) -> (plan: BackendPlan)
        ensures
            plan@ == iwd_plan(self.disables_scan(), Some(content.spec_bytes())),
    {
        let c = content.as_bytes();
        if contains(c, "DisablePeriodicScan".as_bytes()) {
            return BackendPlan::Nothing;
        }
        if !contains(c, "[Scan]".as_bytes()) && self.disable_periodic_scan {
            return BackendPlan::Append(String::from_str("\n[Scan]\nDisablePeriodicScan=true\n"));
        }
        BackendPlan::Nothing
    }

    /// The plan for `wpa_supplicant`, which is left to the network manager.
    pub fn tune_wpa_supplicant(&self) -> (plan: BackendPlan)
        ensures
            plan@ == PlanModel::Nothing,
    {
        BackendPlan::Nothing
    }

    /// Whether the configuration file of `iwd` is to stay when tuning is
    /// reverted, which it always is; `warn` says whether it looks like one
    /// written by `apply` and may hold the user's own changes.
    pub fn revert(&self, existing_config: Option<&str>) -> (warn: bool)
        ensures
            warn == match existing_config {
                Some(c) => contains_bytes(c.spec_bytes(), "ControlPortOverNL80211".spec_bytes()),
                None => false,
            },
    {
        match existing_config {
            Some(content) => contains(content.as_bytes(), "ControlPortOverNL80211".as_bytes()),
            None => false,
        }
    }
}

} // verus!
