//! One-shot system tuning: kernel network settings, driver module options,
//! interrupt affinity and offload settings. The optimizer says what is to be
//! written and run.

use crate::network::wifi::{DriverCategory, WifiInterface};
use crate::system::command::ToolCommand;
use crate::text::{
    contains, contains_bytes, copy_range, equal, find_byte, first_byte_at, lines_of, split_lines,
    trim, trimmed, words_view,
};
use vstd::prelude::*;
use vstd::string::{StringExecFns, StringSliceAdditionalSpecFns};

verus! {

/// One step of applying the optimisations. A number is the place of an
/// interface in the list that was given.
#[derive(Debug, Clone, Copy, PartialEq, Eq, Structural)]
pub enum OptimizerStep {
    /// Write and load the kernel network settings.
    Sysctl,
    /// Write the module options for the driver of this interface.
    DriverConfig(usize),
    /// Bind the interrupts of this interface to one processor.
    IrqAffinity(usize),
    /// Apply the offload settings to this interface.
    Ethtool(usize),
}

/// The steps for `n` interfaces: kernel settings first, then module options,
/// then interrupt affinity, each for every interface and only where enabled,
/// then offload settings for every interface.
pub open spec fn steps_of(sysctl: bool, irq: bool, driver: bool, n: nat) -> Seq<OptimizerStep> {
    (if sysctl { seq![OptimizerStep::Sysctl] } else { Seq::empty() }) + (if driver {
        Seq::new(n, |i: int| OptimizerStep::DriverConfig(i as usize))
    } else {
        Seq::empty()
    }) + (if irq {
        Seq::new(n, |i: int| OptimizerStep::IrqAffinity(i as usize))
    } else {
        Seq::empty()
    }) + Seq::new(n, |i: int| OptimizerStep::Ethtool(i as usize))
}

/// The name of the file that holds the module options of a driver family.
pub open spec fn driver_file(category: DriverCategory) -> Seq<char> {
    match category {
        DriverCategory::Rtw89 => "rtw89.conf"@,
        DriverCategory::Rtw88 => "rtw88.conf"@,
        DriverCategory::RtlLegacy => "rtl_legacy.conf"@,
        DriverCategory::MediaTek => "mediatek.conf"@,
        DriverCategory::Intel => "iwlwifi.conf"@,
        DriverCategory::Atheros => "ath_wifi.conf"@,
        DriverCategory::Broadcom => "broadcom.conf"@,
        DriverCategory::Ralink => "ralink.conf"@,
        DriverCategory::Marvell => "marvell.conf"@,
        DriverCategory::Generic => "wifi_generic.conf"@,
    }
}

/// The module options of a driver family.
pub open spec fn driver_options(category: DriverCategory) -> Seq<char> {
    match category {
        DriverCategory::Rtw89 => "# Realtek RTW89 optimizations (RTL8852/RTL8852BE)\noptions rtw89_pci disable_aspm=1 disable_clkreq=1\noptions rtw89_core tx_ampdu_subframes=32\noptions rtw89_8852be disable_ps_mode=1\n"@,
        DriverCategory::Rtw88 => "# Realtek RTW88 optimizations (RTL8822CE)\noptions rtw88_pci disable_aspm=1\noptions rtw88_core disable_lps_deep=Y\n"@,
        DriverCategory::RtlLegacy => "# Legacy Realtek optimizations\noptions rtl8192ee swenc=1 ips=0 fwlps=0\noptions rtl8188ee swenc=1 ips=0 fwlps=0\noptions rtl_pci disable_aspm=1\n"@,
        DriverCategory::MediaTek => "# MediaTek optimizations (MT7921/MT76)\noptions mt7921e disable_aspm=1\noptions mt76_usb disable_usb_sg=1\n"@,
        DriverCategory::Intel => "# Intel Wi-Fi optimizations\noptions iwlwifi power_save=0 uapsd_disable=1 11n_disable=0\noptions iwlmvm power_scheme=1\n"@,
        DriverCategory::Atheros => "# Qualcomm Atheros optimizations\noptions ath10k_core skip_otp=y\noptions ath11k_pci disable_aspm=1\noptions ath9k nohwcrypt=0 ps_enable=0\n"@,
        DriverCategory::Broadcom => "# Broadcom optimizations\noptions brcmfmac roamoff=1\noptions wl interference=0\n"@,
        DriverCategory::Ralink => "# Ralink/MediaTek Legacy optimizations\noptions rt2800usb nohwcrypt=0\noptions rt2800pci nohwcrypt=0\n"@,
        DriverCategory::Marvell => "# Marvell optimizations\noptions mwifiex disable_auto_ds=1\n"@,
        DriverCategory::Generic => "# Universal Wi-Fi optimizations\n# Applied for unknown drivers\n"@,
    }
}

/// The kernel network settings, each with its value.
pub open spec fn sysctl_pairs() -> Seq<(Seq<char>, Seq<char>)> {
    seq![
        ("net.ipv4.tcp_congestion_control"@, "bbr"@),
        ("net.core.rmem_default"@, "262144"@),
        ("net.core.wmem_default"@, "262144"@),
        ("net.core.rmem_max"@, "4194304"@),
        ("net.core.wmem_max"@, "4194304"@),
        ("net.ipv4.tcp_rmem"@, "4096 131072 4194304"@),
        ("net.ipv4.tcp_wmem"@, "4096 65536 4194304"@),
        ("net.ipv4.tcp_fastopen"@, "3"@),
        ("net.core.netdev_max_backlog"@, "2000"@),
        ("net.ipv4.tcp_ecn"@, "1"@),
        ("net.ipv4.tcp_keepalive_time"@, "60"@),
        ("net.ipv4.tcp_keepalive_intvl"@, "10"@),
        ("net.ipv4.tcp_keepalive_probes"@, "6"@),
        ("net.ipv4.tcp_tw_reuse"@, "1"@),
    ]
}

/// Settings as the text of a configuration file: a heading, then one line
/// for each setting, which holds its name, an equals sign between two
/// spaces, and its value.
pub open spec fn settings_text(pairs: Seq<(Seq<char>, Seq<char>)>) -> Seq<char>
    decreases pairs.len(),
{
    if pairs.len() == 0 {
        "# hifi-wifi Network Optimizations\n"@
    } else {
        settings_text(pairs.drop_last()) + pairs.last().0 + " = "@ + pairs.last().1 + "\n"@
    }
}

/// Settings as pairs of character sequences.
pub open spec fn pairs_view(pairs: Seq<(&'static str, &'static str)>) -> Seq<
    (Seq<char>, Seq<char>),
> {
    Seq::new(pairs.len(), |i: int| (pairs[i].0@, pairs[i].1@))
}

/// Whether a line of the interrupt table belongs to an interface: it names
/// the interface, or what its driver is listed as. Some drivers are listed
/// under other names than their own.
pub open spec fn irq_line_matches(line: Seq<u8>, driver: Seq<u8>, name: Seq<u8>) -> bool {
    contains_bytes(line, name) || (if driver == "rtl8192ee".spec_bytes() {
        contains_bytes(line, "rtl_pci".spec_bytes())
    } else if driver == "ath11k_pci".spec_bytes() || driver == "ath11k".spec_bytes() {
        contains_bytes(line, "ath11k".spec_bytes()) || contains_bytes(line, "wcn".spec_bytes())
            || contains_bytes(line, "wlan0".spec_bytes()) || contains_bytes(
            line,
            "MHI".spec_bytes(),
        )
    } else {
        contains_bytes(line, driver)
    })
}

/// The number of the interrupt that a line of the table stands for: what
/// stands before its first colon, white space aside.
pub open spec fn irq_of(line: Seq<u8>) -> Seq<u8> {
    let body = trimmed(line);
    trimmed(body.subrange(0, first_byte_at(body, 0x3A)))
}

/// The interrupts among `lines` that belong to an interface, in order.
pub open spec fn irqs_in(lines: Seq<Seq<u8>>, driver: Seq<u8>, name: Seq<u8>) -> Seq<Seq<u8>>
    decreases lines.len(),
{
    if lines.len() == 0 {
        Seq::empty()
    } else {
        let rest = irqs_in(lines.drop_last(), driver, name);
        if irq_line_matches(lines.last(), driver, name) {
            rest.push(irq_of(lines.last()))
        } else {
            rest
        }
    }
}

/// How the interrupts of an interface are bound, for display.
#[derive(Debug, Clone, Copy, PartialEq, Eq, Structural)]
pub enum IrqPinStatus {
    /// The affinity of some interrupt could not be read.
    Unknown,
    /// Every interrupt is bound to the one processor.
    Optimized,
    /// None is: the system distributes them.
    SystemManaged,
    /// Some are.
    Partial,
}

/// Whether an affinity mask names processor 1 alone.
pub open spec fn is_cpu1_mask(mask: Seq<u8>) -> bool {
    let m = trimmed(mask);
    m == "2".spec_bytes() || m == "02".spec_bytes() || m == "00000002".spec_bytes() || m
        == "000002".spec_bytes()
}

/// Whether an affinity mask, as its file holds it, names processor 1 alone.
pub fn is_pinned_to_cpu1(mask: &str) -> (pinned: bool)
    ensures
        pinned == is_cpu1_mask(mask.spec_bytes()),
{
    let m = trim(mask.as_bytes());
    equal(m.as_slice(), "2".as_bytes()) || equal(m.as_slice(), "02".as_bytes()) || equal(
        m.as_slice(),
        "00000002".as_bytes(),
    ) || equal(m.as_slice(), "000002".as_bytes())
}

/// How `found` interrupts of an interface are bound, of which `readable`
/// have an affinity that could be read and `pinned` are bound to processor 1.
pub fn irq_pin_status(found: usize, readable: usize, pinned: usize) -> (status: IrqPinStatus)
    ensures
        status == (if readable == 0 || readable != found {
            IrqPinStatus::Unknown
        } else if pinned == readable {
            IrqPinStatus::Optimized
        } else if pinned == 0 {
            IrqPinStatus::SystemManaged
        } else {
            IrqPinStatus::Partial
        }),
{
    if readable == 0 || readable != found {
        IrqPinStatus::Unknown
    } else if pinned == readable {
        IrqPinStatus::Optimized
    } else if pinned == 0 {
        IrqPinStatus::SystemManaged
    } else {
        IrqPinStatus::Partial
    }
}

/// Applies kernel and driver tuning.
pub struct SystemOptimizer {
    sysctl_enabled: bool,
    irq_affinity_enabled: bool,
    driver_tweaks_enabled: bool,
}

impl SystemOptimizer {
    /// What is enabled: kernel settings, interrupt affinity, module options.
    pub closed spec fn flags(&self) -> (bool, bool, bool) {
        (self.sysctl_enabled, self.irq_affinity_enabled, self.driver_tweaks_enabled)
    }

    /// An optimizer with the given parts enabled.
    pub fn new(sysctl: bool, irq: bool, driver: bool) -> (o: Self)
        ensures
            o.flags() == (sysctl, irq, driver),
    {
        SystemOptimizer {
            sysctl_enabled: sysctl,
            irq_affinity_enabled: irq,
            driver_tweaks_enabled: driver,
        }
    }

    /// The steps that apply all optimisations to `interfaces`, in order.
    pub fn apply(&self, interfaces: &Vec<WifiInterface>) -> (steps: Vec<OptimizerStep>)
        ensures
            steps@ == steps_of(
                self.flags().0,
                self.flags().1,
                self.flags().2,
                interfaces@.len(),
            ),
    {
        let n: usize = interfaces.len();
        let mut steps: Vec<OptimizerStep> = Vec::new();
        if self.sysctl_enabled {
            steps.push(OptimizerStep::Sysctl);
        }
        let ghost head = steps@;
        if self.driver_tweaks_enabled {
            let mut i: usize = 0;
            while i < n
                invariant
                    i <= n,
                    steps@ == head + Seq::new(
                        i as nat,
                        |k: int| OptimizerStep::DriverConfig(k as usize),
                    ),
                decreases n - i,
            {
                steps.push(OptimizerStep::DriverConfig(i));
                assert(steps@ =~= head + Seq::new(
                    (i + 1) as nat,
                    |k: int| OptimizerStep::DriverConfig(k as usize),
                ));
                i += 1;
            }
        }
        let ghost head2 = steps@;
        if self.irq_affinity_enabled {
            let mut i: usize = 0;
            while i < n
                invariant
                    i <= n,
                    steps@ == head2 + Seq::new(
                        i as nat,
                        |k: int| OptimizerStep::IrqAffinity(k as usize),
                    ),
                decreases n - i,
            {
                steps.push(OptimizerStep::IrqAffinity(i));
                assert(steps@ =~= head2 + Seq::new(
                    (i + 1) as nat,
                    |k: int| OptimizerStep::IrqAffinity(k as usize),
                ));
                i += 1;
            }
        }
        let ghost head3 = steps@;
        let mut i: usize = 0;
        while i < n
            invariant
                i <= n,
                steps@ == head3 + Seq::new(i as nat, |k: int| OptimizerStep::Ethtool(k as usize)),
            decreases n - i,
        {
            steps.push(OptimizerStep::Ethtool(i));
            assert(steps@ =~= head3 + Seq::new(
                (i + 1) as nat,
                |k: int| OptimizerStep::Ethtool(k as usize),
            ));
            i += 1;
        }
        assert(steps@ =~= steps_of(
            self.sysctl_enabled,
            self.irq_affinity_enabled,
            self.driver_tweaks_enabled,
            n as nat,
        ));
        steps
    }

    /// The kernel network settings, each with its value.
    pub fn sysctl_settings() -> (settings: Vec<(&'static str, &'static str)>)
        ensures
            pairs_view(settings@) == sysctl_pairs(),
    {
        let mut settings: Vec<(&'static str, &'static str)> = Vec::new();
        settings.push(("net.ipv4.tcp_congestion_control", "bbr"));
        settings.push(("net.core.rmem_default", "262144"));
        settings.push(("net.core.wmem_default", "262144"));
        settings.push(("net.core.rmem_max", "4194304"));
        settings.push(("net.core.wmem_max", "4194304"));
        settings.push(("net.ipv4.tcp_rmem", "4096 131072 4194304"));
        settings.push(("net.ipv4.tcp_wmem", "4096 65536 4194304"));
        settings.push(("net.ipv4.tcp_fastopen", "3"));
        settings.push(("net.core.netdev_max_backlog", "2000"));
        settings.push(("net.ipv4.tcp_ecn", "1"));
        settings.push(("net.ipv4.tcp_keepalive_time", "60"));
        settings.push(("net.ipv4.tcp_keepalive_intvl", "10"));
        settings.push(("net.ipv4.tcp_keepalive_probes", "6"));
        settings.push(("net.ipv4.tcp_tw_reuse", "1"));
        assert(pairs_view(settings@) =~= sysctl_pairs());
        settings
    }

    /// The text of the configuration file with the kernel network settings.
    pub fn apply_sysctl_tuning(&self) -> (text: String)
        ensures
            text@ == settings_text(sysctl_pairs()),
    {
        let settings = Self::sysctl_settings();
        let ghost all = pairs_view(settings@);
        let mut text = String::from_str("# hifi-wifi Network Optimizations\n");
        let mut i: usize = 0;
        assert(all.take(0) =~= Seq::<(Seq<char>, Seq<char>)>::empty());
        while i < settings.len()
            invariant
                i <= settings@.len(),
                all == pairs_view(settings@),
                text@ == settings_text(all.take(i as int)),
            decreases settings@.len() - i,
        {
            assert(all.take(i + 1).drop_last() =~= all.take(i as int));
            assert(all.take(i + 1).last() == (settings@[i as int].0@, settings@[i as int].1@));
            let (key, value): (&'static str, &'static str) = settings[i];
            text.append(key);
            text.append(" = ");
            text.append(value);
            text.append("\n");
            i += 1;
        }
        assert(all.take(all.len() as int) =~= all);
        text
    }

    /// The command that sets one kernel setting for the running system.
    pub fn sysctl_write_command(key: &str, value: &str) -> (cmd: ToolCommand)
        ensures
            cmd.program@ == "sysctl"@,
            cmd.args_view() == seq!["-w"@, key@ + "="@ + value@],
    {
        let mut setting = String::from_str(key);
        setting.append("=");
        setting.append(value);
        let mut cmd = ToolCommand::new("sysctl");
        cmd.arg("-w");
        cmd.arg(setting.as_str());
        assert(cmd.args_view() =~= seq!["-w"@, key@ + "="@ + value@]);
        cmd
    }

    /// Whether the kernel settings are to be set one by one: whenever the
    /// file could not be written, or loading it did not succeed. `loaded` is
    /// `None` where the loading command could not be run.
    pub fn sysctl_fallback_needed(persisted: bool, loaded: Option<bool>) -> (needed: bool)
        ensures
            needed == !(persisted && loaded == Some(true)),
    {
        if !persisted {
            return true;
        }
        match loaded {
            Some(ok) => !ok,
            None => true,
        }
    }

    /// The name of the file with the module options of a driver family, and
    /// its content.
    pub fn apply_driver_config(&self, category: &DriverCategory) -> (file: (
        &'static str,
        &'static str,
    ))
        ensures
            file.0@ == driver_file(*category),
            file.1@ == driver_options(*category),
    {
        match category {
            DriverCategory::Rtw89 => (
                "rtw89.conf",
                "# Realtek RTW89 optimizations (RTL8852/RTL8852BE)\noptions rtw89_pci disable_aspm=1 disable_clkreq=1\noptions rtw89_core tx_ampdu_subframes=32\noptions rtw89_8852be disable_ps_mode=1\n",
            ),
            DriverCategory::Rtw88 => (
                "rtw88.conf",
                "# Realtek RTW88 optimizations (RTL8822CE)\noptions rtw88_pci disable_aspm=1\noptions rtw88_core disable_lps_deep=Y\n",
            ),
            DriverCategory::RtlLegacy => (
                "rtl_legacy.conf",
                "# Legacy Realtek optimizations\noptions rtl8192ee swenc=1 ips=0 fwlps=0\noptions rtl8188ee swenc=1 ips=0 fwlps=0\noptions rtl_pci disable_aspm=1\n",
            ),
            DriverCategory::MediaTek => (
                "mediatek.conf",
                "# MediaTek optimizations (MT7921/MT76)\noptions mt7921e disable_aspm=1\noptions mt76_usb disable_usb_sg=1\n",
            ),
            DriverCategory::Intel => (
                "iwlwifi.conf",
                "# Intel Wi-Fi optimizations\noptions iwlwifi power_save=0 uapsd_disable=1 11n_disable=0\noptions iwlmvm power_scheme=1\n",
            ),
            DriverCategory::Atheros => (
                "ath_wifi.conf",
                "# Qualcomm Atheros optimizations\noptions ath10k_core skip_otp=y\noptions ath11k_pci disable_aspm=1\noptions ath9k nohwcrypt=0 ps_enable=0\n",
            ),
            DriverCategory::Broadcom => (
                "broadcom.conf",
                "# Broadcom optimizations\noptions brcmfmac roamoff=1\noptions wl interference=0\n",
            ),
            DriverCategory::Ralink => (
                "ralink.conf",
                "# Ralink/MediaTek Legacy optimizations\noptions rt2800usb nohwcrypt=0\noptions rt2800pci nohwcrypt=0\n",
            ),
            DriverCategory::Marvell => (
                "marvell.conf",
                "# Marvell optimizations\noptions mwifiex disable_auto_ds=1\n",
            ),
            DriverCategory::Generic => (
                "wifi_generic.conf",
                "# Universal Wi-Fi optimizations\n# Applied for unknown drivers\n",
            ),
        }
    }

    /// The interrupts of an interface, read from the kernel's interrupt
    /// table: every one whose line names the interface or its driver.
    pub fn optimize_irq_affinity(&self, ifc: &WifiInterface, interrupts: &str) -> (irqs: Vec<
        Vec<u8>,
    >)
        ensures
            words_view(irqs@) == irqs_in(
                lines_of(interrupts.spec_bytes()),
                vstd::utf8::encode_utf8(ifc.driver@),
                vstd::utf8::encode_utf8(ifc.name@),
            ),
    {
        let lines = split_lines(interrupts.as_bytes());
        let driver = ifc.driver.as_str().as_bytes();
        let name = ifc.name.as_str().as_bytes();
        let ghost all = words_view(lines@);
        let mut irqs: Vec<Vec<u8>> = Vec::new();
        let mut i: usize = 0;
        assert(all.take(0) =~= Seq::<Seq<u8>>::empty());
        assert(words_view(irqs@) =~= Seq::<Seq<u8>>::empty());
        while i < lines.len()
            invariant
                i <= lines@.len(),
                all == words_view(lines@),
                driver@ == vstd::utf8::encode_utf8(ifc.driver@),
                name@ == vstd::utf8::encode_utf8(ifc.name@),
                words_view(irqs@) == irqs_in(all.take(i as int), driver@, name@),
            decreases lines@.len() - i,
        {
            assert(all.take(i + 1).drop_last() =~= all.take(i as int));
            assert(all.take(i + 1).last() == lines@[i as int]@);
            let line = lines[i].as_slice();
            let by_driver: bool = if equal(driver, "rtl8192ee".as_bytes()) {
                contains(line, "rtl_pci".as_bytes())
            } else if equal(driver, "ath11k_pci".as_bytes()) || equal(
                driver,
                "ath11k".as_bytes(),
            ) {
                contains(line, "ath11k".as_bytes()) || contains(line, "wcn".as_bytes())
                    || contains(line, "wlan0".as_bytes()) || contains(line, "MHI".as_bytes())
            } else {
                contains(line, driver)
            };
            if contains(line, name) || by_driver {
                let body = trim(line);
                let colon: usize = find_byte(body.as_slice(), 0x3A);
                let head = copy_range(body.as_slice(), 0, colon);
                let irq = trim(head.as_slice());
                let ghost before = words_view(irqs@);
                irqs.push(irq);
                assert(words_view(irqs@) =~= before.push(irq_of(lines@[i as int]@)));
            }
            i += 1;
        }
        assert(all.take(all.len() as int) =~= all);
        irqs
    }

    /// The command that applies the offload settings to an interface:
    /// segmentation offloads off, receive offload on.
    pub fn apply_ethtool_settings(&self, ifc: &WifiInterface) -> (cmd: ToolCommand)
        ensures
            cmd.program@ == "ethtool"@,
            cmd.args_view() == seq![
                "-K"@,
                ifc.name@,
                "tso"@,
                "off"@,
                "gso"@,
                "off"@,
                "gro"@,
                "on"@,
            ],
    {
        let mut cmd = ToolCommand::new("ethtool");
        cmd.arg("-K");
        cmd.arg(ifc.name.as_str());
        cmd.arg("tso");
        cmd.arg("off");
        cmd.arg("gso");
        cmd.arg("off");
        cmd.arg("gro");
        cmd.arg("on");
        assert(cmd.args_view() =~= seq![
            "-K"@,
            ifc.name@,
            "tso"@,
            "off"@,
            "gso"@,
            "off"@,
            "gro"@,
            "on"@,
        ]);
        cmd
    }

    /// The names of the files that reverting removes: one for every driver
    /// family.
    pub fn revert(&self) -> (files: Vec<&'static str>)
        ensures
            files@.len() == 10,
            files@[0]@ == driver_file(DriverCategory::Rtw89),
            files@[1]@ == driver_file(DriverCategory::Rtw88),
            files@[2]@ == driver_file(DriverCategory::RtlLegacy),
            files@[3]@ == driver_file(DriverCategory::MediaTek),
            files@[4]@ == driver_file(DriverCategory::Intel),
            files@[5]@ == driver_file(DriverCategory::Atheros),
            files@[6]@ == driver_file(DriverCategory::Broadcom),
            files@[7]@ == driver_file(DriverCategory::Ralink),
            files@[8]@ == driver_file(DriverCategory::Marvell),
            files@[9]@ == driver_file(DriverCategory::Generic),
    {
        let mut files: Vec<&'static str> = Vec::new();
        files.push("rtw89.conf");
        files.push("rtw88.conf");
        files.push("rtl_legacy.conf");
        files.push("mediatek.conf");
        files.push("iwlwifi.conf");
        files.push("ath_wifi.conf");
        files.push("broadcom.conf");
        files.push("ralink.conf");
        files.push("marvell.conf");
        files.push("wifi_generic.conf");
        files
    }
}

impl Default for SystemOptimizer {
    fn default() -> (o: Self)
        ensures
            o.flags() == (true, true, true),
    {
        SystemOptimizer::new(true, true, true)
    }
}

} // verus!
