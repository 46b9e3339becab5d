use vstd::prelude::*;
use crate::distro::{self, detect_from, distribution_of, distro_error_text, DistroError};
use crate::dkms::{self, dkms_modules};
use crate::firmware::{self, firmware_updates};
use crate::hardware::{
    detect_pci_devices, devices_of_records, hardware_error_text, loaded_modules, lspci_slots,
    module_names, slots_of_records, HardwareError, HardwareErrorView, SysfsEntry,
};
use crate::kernel::{installed_kernels, kernel_updates, status};
use crate::model::{view_all, DistributionFamily, PackageManager, PackageUpdate, ScanReport, SystemInfo};
use crate::package_manager::{
    accepted_text, check_updates, detect, first_available, package_error_text, package_updates,
    preference, update_command, update_command_of, PackageError, UpdateCommand,
};
use crate::process::{process_error_text, CommandOutput, ProcessError};
use crate::reboot::required;
use crate::text::{lines, owned, push_str, trim, trim_string};

verus! {

#[derive(Debug, Clone, PartialEq, Eq)]
pub enum ScanError {
    Distro(DistroError),
    Hardware(HardwareError),
    /// `uname` failed; the text says how.
    Kernel(String),
    /// `/proc/modules` could not be read; the text is the system's reason.
    Modules(String),
}

/// The text that describes a scan error.
pub open spec fn scan_error_text(e: ScanError) -> Seq<char> {
    match e {
        ScanError::Distro(d) => distro_error_text(d),
        ScanError::Hardware(h) => hardware_error_text(h@),
        ScanError::Kernel(m) => "could not determine the running kernel: "@ + m@,
        ScanError::Modules(m) => "could not read loaded modules: "@ + m@,
    }
}

impl ScanError {
    /// The text that describes this error.
    pub fn message(&self) -> (r: String)
        ensures
            r@ == scan_error_text(*self),
    {
        match self {
            ScanError::Distro(d) => d.message(),
            ScanError::Hardware(h) => h.message(),
            ScanError::Kernel(m) => {
                let mut r = owned("could not determine the running kernel: ");
                push_str(&mut r, m.as_str());
                r
            },
            ScanError::Modules(m) => {
                let mut r = owned("could not read loaded modules: ");
                push_str(&mut r, m.as_str());
                r
            },
        }
    }
}

/// The answer of a command such as `uname -r`: its trimmed output when it
/// succeeded, nothing otherwise.
pub fn command_text(output: &CommandOutput) -> (r: Option<String>)
    ensures
        match r {
            Some(t) => output.success && t@ == trim(output.stdout@),
            None => !output.success,
        },
{
    if output.success {
        Some(trim_string(output.stdout.as_str()))
    } else {
        None
    }
}

/// What the probes of a scan have found so far; a probe not yet run is `None`.
/// `next_probe` says which probe runs next, and `SystemScanner::scan` turns
/// the findings into a report once no probe is left.
pub struct ScanFacts {
    /// The contents of `/etc/os-release`, or why it could not be read.
    pub os_release: Option<Result<String, String>>,
    /// The package managers whose commands are installed.
    pub installed_managers: Option<Vec<PackageManager>>,
    /// What `uname -r` left behind, or why it could not be started.
    pub kernel: Option<Result<CommandOutput, String>>,
    /// What `uname -m` left behind, or why it could not be started.
    pub architecture: Option<Result<CommandOutput, String>>,
    /// What the update command of the package manager gave.
    pub update_output: Option<Result<String, ProcessError>>,
    /// Whether `fwupdmgr` is installed.
    pub fwupdmgr_installed: Option<bool>,
    /// What `fwupdmgr get-updates` gave.
    pub firmware_output: Option<Result<String, ProcessError>>,
    /// What `dkms status` gave.
    pub dkms_output: Option<Result<String, ProcessError>>,
    /// The names of the entries of `/boot`.
    pub boot_entries: Option<Vec<String>>,
    /// What `lspci -D -mm -k` left behind, or why it could not be started.
    pub lspci: Option<Result<CommandOutput, String>>,
    /// What sysfs shows for the slots of `Probe::Sysfs`.
    pub sysfs: Option<Vec<SysfsEntry>>,
    /// The contents of `/proc/modules`, or why it could not be read.
    pub modules: Option<Result<String, String>>,
    /// Whether `/run/reboot-required` or `/var/run/reboot-required` exists.
    pub reboot_flag: Option<bool>,
    /// The exit code of `needs-restarting -r`; `None` inside when it could not
    /// be started or a signal ended it.
    pub needs_restarting: Option<Option<i32>>,
}

impl ScanFacts {
    /// Findings before any probe has run.
    pub fn new() -> (r: ScanFacts)
        ensures
            r.os_release is None && r.installed_managers is None && r.kernel is None
                && r.architecture is None && r.update_output is None && r.fwupdmgr_installed is None
                && r.firmware_output is None && r.dkms_output is None && r.boot_entries is None
                && r.lspci is None && r.sysfs is None && r.modules is None && r.reboot_flag is None
                && r.needs_restarting is None,
    {
        ScanFacts {
            os_release: None,
            installed_managers: None,
            kernel: None,
            architecture: None,
            update_output: None,
            fwupdmgr_installed: None,
            firmware_output: None,
            dkms_output: None,
            boot_entries: None,
            lspci: None,
            sysfs: None,
            modules: None,
            reboot_flag: None,
            needs_restarting: None,
        }
    }
}

/// The probes of a scan, in the order in which they run.
#[derive(Debug, Clone, Copy, PartialEq, Eq, Structural)]
pub enum ProbeKind {
    OsRelease,
    InstalledManagers,
    Kernel,
    Architecture,
    Updates,
    FirmwareTool,
    Firmware,
    Dkms,
    BootEntries,
    Lspci,
    Sysfs,
    Modules,
    RebootFlag,
    NeedsRestarting,
}

/// A probe to run, with what it needs.
pub enum Probe {
    /// Read `/etc/os-release`.
    OsRelease,
    /// Find which of `apt`, `dnf`, `pacman` and `zypper` are installed.
    InstalledManagers,
    /// Run `uname -r`.
    Kernel,
    /// Run `uname -m`.
    Architecture,
    /// Run this update command.
    Updates(UpdateCommand),
    /// Find whether `fwupdmgr` is installed.
    FirmwareTool,
    /// Run `fwupdmgr get-updates`.
    Firmware,
    /// Run `dkms status`.
    Dkms,
    /// List `/boot`.
    BootEntries,
    /// Run `lspci -D -mm -k`.
    Lspci,
    /// Read what sysfs shows for these PCI slots.
    Sysfs(Vec<String>),
    /// Read `/proc/modules`.
    Modules,
    /// Look for the reboot flag files.
    RebootFlag,
    /// Run `needs-restarting -r`.
    NeedsRestarting,
}

pub open spec fn kind_of(p: Probe) -> ProbeKind {
    match p {
        Probe::OsRelease => ProbeKind::OsRelease,
        Probe::InstalledManagers => ProbeKind::InstalledManagers,
        Probe::Kernel => ProbeKind::Kernel,
        Probe::Architecture => ProbeKind::Architecture,
        Probe::Updates(_) => ProbeKind::Updates,
        Probe::FirmwareTool => ProbeKind::FirmwareTool,
        Probe::Firmware => ProbeKind::Firmware,
        Probe::Dkms => ProbeKind::Dkms,
        Probe::BootEntries => ProbeKind::BootEntries,
        Probe::Lspci => ProbeKind::Lspci,
        Probe::Sysfs(_) => ProbeKind::Sysfs,
        Probe::Modules => ProbeKind::Modules,
        Probe::RebootFlag => ProbeKind::RebootFlag,
        Probe::NeedsRestarting => ProbeKind::NeedsRestarting,
    }
}

/// The place of a probe in the order in which probes run.
pub open spec fn rank(k: ProbeKind) -> int {
    match k {
        ProbeKind::OsRelease => 0,
        ProbeKind::InstalledManagers => 1,
        ProbeKind::Kernel => 2,
        ProbeKind::Architecture => 3,
        ProbeKind::Updates => 4,
        ProbeKind::FirmwareTool => 5,
        ProbeKind::Firmware => 6,
        ProbeKind::Dkms => 7,
        ProbeKind::BootEntries => 8,
        ProbeKind::Lspci => 9,
        ProbeKind::Sysfs => 10,
        ProbeKind::Modules => 11,
        ProbeKind::RebootFlag => 12,
        ProbeKind::NeedsRestarting => 13,
    }
}

/// Whether a command ran and exited successfully.
pub open spec fn succeeded(o: Option<Result<CommandOutput, String>>) -> bool {
    o matches Some(Ok(out)) && out.success
}

/// The text of `/etc/os-release`, once read.
pub open spec fn os_release_text(f: ScanFacts) -> Seq<char> {
    match f.os_release {
        Some(Ok(c)) => c@,
        _ => Seq::empty(),
    }
}

/// The package manager that the findings select: the preferred installed one
/// for the family of the distribution.
pub open spec fn chosen_manager(f: ScanFacts) -> PackageManager {
    match f.installed_managers {
        Some(v) => first_available(preference(distribution_of(os_release_text(f)).family), v@),
        None => PackageManager::Unknown,
    }
}

/// The output of `lspci`, once it ran.
pub open spec fn lspci_text(f: ScanFacts) -> Seq<char> {
    match f.lspci {
        Some(Ok(out)) => out.stdout@,
        _ => Seq::empty(),
    }
}

/// The probe that runs next: the first one not yet run, in the order of the
/// scan, except that nothing runs once `/etc/os-release`, `uname -r`,
/// `uname -m`, `lspci` or `/proc/modules` has failed. The update command runs
/// only for a known package manager, `fwupdmgr get-updates` only when it is
/// installed, the sysfs reads only after `lspci` succeeded, and
/// `needs-restarting` only when no reboot flag file exists.
pub open spec fn next_kind(f: ScanFacts) -> Option<ProbeKind> {
    if f.os_release is None {
        Some(ProbeKind::OsRelease)
    } else if f.os_release matches Some(Err(_)) {
        None
    } else if f.installed_managers is None {
        Some(ProbeKind::InstalledManagers)
    } else if f.kernel is None {
        Some(ProbeKind::Kernel)
    } else if !succeeded(f.kernel) {
        None
    } else if f.architecture is None {
        Some(ProbeKind::Architecture)
    } else if !succeeded(f.architecture) {
        None
    } else if chosen_manager(f) != PackageManager::Unknown && f.update_output is None {
        Some(ProbeKind::Updates)
    } else if f.fwupdmgr_installed is None {
        Some(ProbeKind::FirmwareTool)
    } else if f.fwupdmgr_installed == Some(true) && f.firmware_output is None {
        Some(ProbeKind::Firmware)
    } else if f.dkms_output is None {
        Some(ProbeKind::Dkms)
    } else if f.boot_entries is None {
        Some(ProbeKind::BootEntries)
    } else if f.lspci is None {
        Some(ProbeKind::Lspci)
    } else if !succeeded(f.lspci) {
        None
    } else if f.sysfs is None {
        Some(ProbeKind::Sysfs)
    } else if f.modules is None {
        Some(ProbeKind::Modules)
    } else if f.modules matches Some(Err(_)) {
        None
    } else if f.reboot_flag is None {
        Some(ProbeKind::RebootFlag)
    } else if f.reboot_flag == Some(false) && f.needs_restarting is None {
        Some(ProbeKind::NeedsRestarting)
    } else {
        None
    }
}

fn ran_ok(o: &Option<Result<CommandOutput, String>>) -> (r: bool)
    ensures
        r == succeeded(*o),
{
    match o {
        Some(Ok(out)) => out.success,
        _ => false,
    }
}

fn manager_of(f: &ScanFacts) -> (r: PackageManager)
    ensures
        r == chosen_manager(*f),
{
    match &f.installed_managers {
        Some(v) => {
            let text = match &f.os_release {
                Some(Ok(c)) => c.as_str(),
                _ => "",
            };
            proof {
                reveal_strlit("");
            }
            let family = match detect_from(text) {
                Ok(d) => d.family,
                Err(_) => DistributionFamily::Unknown,
            };
            detect(&family, v)
        },
        None => PackageManager::Unknown,
    }
}

/// The probe that runs next, if any (see `next_kind`), with what it needs:
/// the update command of the selected package manager, or the slots that
/// `lspci` listed.
pub fn next_probe(f: &ScanFacts) -> (r: Option<Probe>)
    ensures
        match r {
            None => next_kind(*f) is None,
            Some(p) => next_kind(*f) == Some(kind_of(p)) && (p matches Probe::Updates(c)
                ==> update_command_of(chosen_manager(*f)) == Some(
                (c.program@, view_all(c.args@)),
            )) && (p matches Probe::Sysfs(slots) ==> view_all(slots@) == slots_of_records(
                lines(lspci_text(*f)),
            )),
        },
{
    if f.os_release.is_none() {
        return Some(Probe::OsRelease);
    }
    if let Some(Err(_)) = &f.os_release {
        return None;
    }
    if f.installed_managers.is_none() {
        return Some(Probe::InstalledManagers);
    }
    if f.kernel.is_none() {
        return Some(Probe::Kernel);
    }
    if !ran_ok(&f.kernel) {
        return None;
    }
    if f.architecture.is_none() {
        return Some(Probe::Architecture);
    }
    if !ran_ok(&f.architecture) {
        return None;
    }
    let manager = manager_of(f);
    if manager != PackageManager::Unknown && f.update_output.is_none() {
        return match update_command(&manager) {
            Some(c) => Some(Probe::Updates(c)),
            None => None,
        };
    }
    if f.fwupdmgr_installed.is_none() {
        return Some(Probe::FirmwareTool);
    }
    if f.fwupdmgr_installed == Some(true) && f.firmware_output.is_none() {
        return Some(Probe::Firmware);
    }
    if f.dkms_output.is_none() {
        return Some(Probe::Dkms);
    }
    if f.boot_entries.is_none() {
        return Some(Probe::BootEntries);
    }
    if f.lspci.is_none() {
        return Some(Probe::Lspci);
    }
    if !ran_ok(&f.lspci) {
        return None;
    }
    if f.sysfs.is_none() {
        return match &f.lspci {
            Some(Ok(out)) => Some(Probe::Sysfs(lspci_slots(out.stdout.as_str()))),
            _ => None,
        };
    }
    if f.modules.is_none() {
        return Some(Probe::Modules);
    }
    if let Some(Err(_)) = &f.modules {
        return None;
    }
    if f.reboot_flag.is_none() {
        return Some(Probe::RebootFlag);
    }
    if f.reboot_flag == Some(false) && f.needs_restarting.is_none() {
        return Some(Probe::NeedsRestarting);
    }
    None
}

/// The answer of `uname`: its trimmed output when it succeeded; otherwise
/// `uname exited with <status>`, or why it could not be started.
pub open spec fn uname_answer(o: Result<CommandOutput, String>) -> Result<Seq<char>, Seq<char>> {
    match o {
        Ok(out) => if out.success {
            Ok(trim(out.stdout@))
        } else {
            Err("uname exited with "@ + out.status@)
        },
        Err(m) => Err(m@),
    }
}

fn answer_of(o: Result<CommandOutput, String>) -> (r: Result<String, String>)
    ensures
        match r {
            Ok(s) => uname_answer(o) == Ok::<Seq<char>, Seq<char>>(s@),
            Err(m) => uname_answer(o) == Err::<Seq<char>, Seq<char>>(m@),
        },
{
    match o {
        Ok(out) => match command_text(&out) {
            Some(t) => Ok(t),
            None => {
                let mut m = owned("uname exited with ");
                push_str(&mut m, out.status.as_str());
                Err(m)
            },
        },
        Err(m) => Err(m),
    }
}

/// The warning that a failed update check leaves in the report.
pub open spec fn update_warning(e: PackageError) -> Seq<char> {
    "Could not check package updates: "@ + package_error_text(e)
}

/// The updates that the findings report for package manager `m`.
pub open spec fn reported_updates(f: ScanFacts, m: PackageManager) -> Seq<crate::model::PackageUpdateView> {
    if m == PackageManager::Unknown {
        Seq::empty()
    } else {
        match accepted_text(m, f.update_output.unwrap()) {
            Some(t) => package_updates(m, t),
            None => Seq::empty(),
        }
    }
}

/// The warnings that the findings leave for package manager `m`: one when its
/// update command failed.
pub open spec fn reported_warnings(f: ScanFacts, m: PackageManager) -> Seq<Seq<char>> {
    if m != PackageManager::Unknown && accepted_text(m, f.update_output.unwrap()) is None {
        match f.update_output.unwrap() {
            Err(e) => seq![update_warning(PackageError::Process(e))],
            Ok(_) => Seq::empty(),
        }
    } else {
        Seq::empty()
    }
}

/// The report that complete findings give when no probe failed, given the
/// running kernel `k` and architecture `a`.
pub open spec fn report_from(f: ScanFacts, k: Seq<char>, a: Seq<char>, report: ScanReport) -> bool {
    let d = distribution_of(os_release_text(f));
    let m = chosen_manager(f);
    let tool = f.fwupdmgr_installed.unwrap();
    &&& report.system.distribution@ == d
    &&& report.system.kernel@ == k
    &&& report.system.architecture@ == a
    &&& report.system.package_manager == m
    &&& view_all(report.package_updates@) == reported_updates(f, m)
    &&& view_all(report.warnings@) == reported_warnings(f, m)
    &&& report.firmware.tool_available == tool
    &&& report.firmware.checked == tool
    &&& !tool ==> report.firmware.updates@.len() == 0
    &&& tool ==> match f.firmware_output.unwrap() {
        Ok(t) => view_all(report.firmware.updates@) == firmware_updates(lines(t@)),
        Err(_) => report.firmware.updates@.len() == 0,
    }
    &&& match f.dkms_output.unwrap() {
        Ok(t) => view_all(report.dkms_modules@) == dkms_modules(lines(t@)),
        Err(_) => report.dkms_modules@.len() == 0,
    }
    &&& report.kernels.running@ == k
    &&& view_all(report.kernels.installed@) == installed_kernels(
        view_all(f.boot_entries.unwrap()@),
    )
    &&& view_all(report.kernels.updates@) == kernel_updates(reported_updates(f, m))
    &&& view_all(report.devices@) == devices_of_records(
        lines(lspci_text(f)),
        view_all(f.sysfs.unwrap()@),
    )
    &&& view_all(report.loaded_modules@) == module_names(
        lines(
            match f.modules {
                Some(Ok(c)) => c@,
                _ => Seq::empty(),
            },
        ),
    )
    &&& report.reboot_required == (f.reboot_flag == Some(true) || f.needs_restarting == Some(
        Some(1i32),
    ))
}

/// What complete findings give: the error of the first probe that failed, in
/// the order of the scan, or the report.
pub open spec fn scan_outcome(f: ScanFacts, r: Result<ScanReport, ScanError>) -> bool {
    match f.os_release.unwrap() {
        Err(m) => r == Err::<ScanReport, ScanError>(ScanError::Distro(DistroError::Read(m))),
        Ok(_) => match uname_answer(f.kernel.unwrap()) {
            Err(m) => r matches Err(ScanError::Kernel(e)) && e@ == m,
            Ok(k) => match uname_answer(f.architecture.unwrap()) {
                Err(m) => r matches Err(ScanError::Kernel(e)) && e@ == m,
                Ok(a) => match f.lspci.unwrap() {
                    Err(m) => r == Err::<ScanReport, ScanError>(
                        ScanError::Hardware(HardwareError::Command(m)),
                    ),
                    Ok(out) => if !out.success {
                        r matches Err(ScanError::Hardware(e)) && e@ == HardwareErrorView::Failed(
                            trim(out.stderr@),
                        )
                    } else {
                        match f.modules.unwrap() {
                            Err(m) => r == Err::<ScanReport, ScanError>(ScanError::Modules(m)),
                            Ok(_) => r matches Ok(report) && report_from(f, k, a, report),
                        }
                    },
                },
            },
        },
    }
}

/// Scans the system.
#[derive(Debug, Default)]
pub struct SystemScanner;

impl SystemScanner {
    /// The result of a scan whose probes have all run (`next_probe` names no
    /// further one): the first failure in the order of the scan, or the report
    /// that the probes' parsers and rules give. A failed update check is no
    /// error but a warning, and then no updates are reported.
    pub fn scan(&self, facts: ScanFacts) -> (r: Result<ScanReport, ScanError>)
        requires
            next_kind(facts) is None,
        ensures
            scan_outcome(facts, r),
    {
        let ghost f = facts;
        let manager = manager_of(&facts);
        let ScanFacts {
            os_release,
            installed_managers: _,
            kernel,
            architecture,
            update_output,
            fwupdmgr_installed,
            firmware_output,
            dkms_output,
            boot_entries,
            lspci,
            sysfs,
            modules,
            reboot_flag,
            needs_restarting,
        } = facts;
        let distribution = match os_release {
            Some(o) => match distro::detect(o) {
                Ok(d) => d,
                Err(e) => return Err(ScanError::Distro(e)),
            },
            None => vstd::pervasive::unreached(),
        };
        let kernel = match kernel {
            Some(o) => match answer_of(o) {
                Ok(k) => k,
                Err(m) => return Err(ScanError::Kernel(m)),
            },
            None => vstd::pervasive::unreached(),
        };
        let architecture = match architecture {
            Some(o) => match answer_of(o) {
                Ok(a) => a,
                Err(m) => return Err(ScanError::Kernel(m)),
            },
            None => vstd::pervasive::unreached(),
        };
        let output = if manager == PackageManager::Unknown {
            Ok(String::new())
        } else {
            match update_output {
                Some(o) => o,
                None => vstd::pervasive::unreached(),
            }
        };
        let mut warnings: Vec<String> = Vec::new();
        let package_updates: Vec<PackageUpdate> = match check_updates(&manager, output) {
            Ok(updates) => updates,
            Err(error) => {
                let mut w = owned("Could not check package updates: ");
                let m = error.message();
                push_str(&mut w, m.as_str());
                warnings.push(w);
                Vec::new()
            },
        };
        let tool = match fwupdmgr_installed {
            Some(t) => t,
            None => vstd::pervasive::unreached(),
        };
        let firmware_output = if tool {
            match firmware_output {
                Some(o) => o,
                None => vstd::pervasive::unreached(),
            }
        } else {
            Ok(String::new())
        };
        let firmware = firmware::check(tool, firmware_output);
        let dkms_modules = match dkms_output {
            Some(o) => dkms::detect(o),
            None => vstd::pervasive::unreached(),
        };
        let boot_entries = match boot_entries {
            Some(b) => b,
            None => vstd::pervasive::unreached(),
        };
        let kernels = status(kernel.as_str(), &boot_entries, &package_updates);
        let devices = match lspci {
            Some(Ok(out)) => {
                let sysfs: Vec<SysfsEntry> = if out.success {
                    match sysfs {
                        Some(s) => s,
                        None => vstd::pervasive::unreached(),
                    }
                } else {
                    Vec::new()
                };
                match detect_pci_devices(out, &sysfs) {
                    Ok(d) => d,
                    Err(e) => return Err(ScanError::Hardware(e)),
                }
            },
            Some(Err(m)) => return Err(ScanError::Hardware(HardwareError::Command(m))),
            None => vstd::pervasive::unreached(),
        };
        let loaded_modules = match modules {
            Some(Ok(c)) => loaded_modules(c.as_str()),
            Some(Err(m)) => return Err(ScanError::Modules(m)),
            None => vstd::pervasive::unreached(),
        };
        let flag = match reboot_flag {
            Some(b) => b,
            None => vstd::pervasive::unreached(),
        };
        let exit = if flag {
            None
        } else {
            match needs_restarting {
                Some(e) => e,
                None => vstd::pervasive::unreached(),
            }
        };
        let reboot_required = required(flag, exit);
        let report = ScanReport {
            system: SystemInfo { distribution, kernel, architecture, package_manager: manager },
            devices,
            loaded_modules,
            package_updates,
            firmware,
            dkms_modules,
            kernels,
            reboot_required,
            warnings,
        };
        proof {
            assert(view_all(report.warnings@) =~= reported_warnings(f, manager));
            if manager == PackageManager::Unknown {
                assert(view_all(report.package_updates@) =~= reported_updates(f, manager));
            }
            assert(view_all(report.package_updates@) == reported_updates(f, manager));
            assert(report.system.distribution@ == distribution_of(os_release_text(f)));
            assert(view_all(report.kernels.updates@) == kernel_updates(reported_updates(f, manager)));
            assert(view_all(report.devices@) == devices_of_records(
                lines(lspci_text(f)),
                view_all(f.sysfs.unwrap()@),
            ));
            assert(report.reboot_required == (f.reboot_flag == Some(true) || f.needs_restarting
                == Some(Some(1i32))));
            assert(report_from(f, kernel@, architecture@, report));
        }
        Ok(report)
    }
}

/// Whether the findings record that probe `k` failed: one of the probes whose
/// failure ends a scan.
pub open spec fn failed(f: ScanFacts, k: ProbeKind) -> bool {
    match k {
        ProbeKind::OsRelease => f.os_release matches Some(Err(_)),
        ProbeKind::Kernel => f.kernel is Some && !succeeded(f.kernel),
        ProbeKind::Architecture => f.architecture is Some && !succeeded(f.architecture),
        ProbeKind::Lspci => f.lspci is Some && !succeeded(f.lspci),
        ProbeKind::Modules => f.modules matches Some(Err(_)),
        _ => false,
    }
}

/// Whether the findings already hold what probe `k` finds.
pub open spec fn recorded(f: ScanFacts, k: ProbeKind) -> bool {
    match k {
        ProbeKind::OsRelease => f.os_release is Some,
        ProbeKind::InstalledManagers => f.installed_managers is Some,
        ProbeKind::Kernel => f.kernel is Some,
        ProbeKind::Architecture => f.architecture is Some,
        ProbeKind::Updates => f.update_output is Some,
        ProbeKind::FirmwareTool => f.fwupdmgr_installed is Some,
        ProbeKind::Firmware => f.firmware_output is Some,
        ProbeKind::Dkms => f.dkms_output is Some,
        ProbeKind::BootEntries => f.boot_entries is Some,
        ProbeKind::Lspci => f.lspci is Some,
        ProbeKind::Sysfs => f.sysfs is Some,
        ProbeKind::Modules => f.modules is Some,
        ProbeKind::RebootFlag => f.reboot_flag is Some,
        ProbeKind::NeedsRestarting => f.needs_restarting is Some,
    }
}

/// The scan stops at its first failure: once a probe has failed, only probes
/// that come before it in the order of the scan can still be chosen, never a
/// later one. A chosen probe is one whose findings are not yet recorded, so
/// every step records something new.
pub proof fn scan_stops_at_the_first_failure(f: ScanFacts, failed_probe: ProbeKind)
    ensures
        failed(f, failed_probe) ==> match next_kind(f) {
            Some(k) => rank(k) < rank(failed_probe),
            None => true,
        },
        match next_kind(f) {
            Some(k) => !recorded(f, k),
            None => true,
        },
{
}

/// A scan's report agrees with itself and with the probes' rules: its
/// distribution is what `/etc/os-release` says, its package manager is the one
/// `package_manager::detect` picks for that distribution's family, the running
/// kernel in the kernel status is the report's kernel, the kernel updates are
/// the kernel updates among the reported updates, the firmware counts as
/// checked exactly when the tool is available and reports nothing otherwise,
/// and there is at most one warning.
pub proof fn scan_report_is_consistent(f: ScanFacts, report: ScanReport)
    requires
        next_kind(f) is None,
        scan_outcome(f, Ok(report)),
    ensures
        report.system.distribution@ == distribution_of(os_release_text(f)),
        report.system.package_manager == first_available(
            preference(report.system.distribution.family),
            f.installed_managers.unwrap()@,
        ),
        report.kernels.running@ == report.system.kernel@,
        f.kernel matches Some(Ok(out)) && report.system.kernel@ == trim(out.stdout@),
        f.architecture matches Some(Ok(out)) && report.system.architecture@ == trim(out.stdout@),
        view_all(report.kernels.updates@) == kernel_updates(view_all(report.package_updates@)),
        report.firmware.checked == report.firmware.tool_available,
        !report.firmware.tool_available ==> report.firmware.updates@.len() == 0,
        report.warnings@.len() <= 1,
{
    assert(view_all(report.warnings@).len() == report.warnings@.len());
}


/// A scan reports that a reboot is required exactly when a reboot flag file
/// exists, or no flag file exists and `needs-restarting -r` exited with code 1.
pub proof fn scan_reports_reboot_as_probed(f: ScanFacts, report: ScanReport)
    requires
        next_kind(f) is None,
        scan_outcome(f, Ok(report)),
    ensures
        report.reboot_required <==> (f.reboot_flag == Some(true) || (f.reboot_flag == Some(false)
            && f.needs_restarting == Some(Some(1i32)))),
        f.reboot_flag == Some(false) && f.needs_restarting == Some(Some(1i32))
            ==> report.reboot_required,
        f.reboot_flag == Some(false) && f.needs_restarting != Some(Some(1i32))
            ==> !report.reboot_required,
{
    assert(succeeded(f.kernel) && succeeded(f.architecture) && succeeded(f.lspci));
    assert(f.modules matches Some(Ok(_)));
    assert(f.reboot_flag is Some);
    if f.reboot_flag.unwrap() {
        assert(f.reboot_flag == Some(true));
    } else {
        assert(f.reboot_flag == Some(false));
    }
    assert(report.reboot_required == (f.reboot_flag == Some(true) || f.needs_restarting == Some(
        Some(1i32),
    )));
}


/// A scan's report lists what its probes found, as the parsers of each probe
/// read it: the updates that the chosen manager's listing describes (none,
/// and no warning, for an unknown manager; none, and one warning, when the
/// update command failed, with a warning that says why), the firmware
/// updates that `fwupdmgr` announces when it is installed, the DKMS modules of `dkms status` (none when it
/// failed), the devices of `lspci` with what sysfs shows, the loaded modules
/// of `/proc/modules`, and the kernels that the entries of `/boot` announce.
pub proof fn scan_reports_what_the_probes_found(f: ScanFacts, report: ScanReport)
    requires
        next_kind(f) is None,
        scan_outcome(f, Ok(report)),
    ensures
        report.system.package_manager == PackageManager::Unknown ==> report.package_updates@.len()
            == 0 && report.warnings@.len() == 0,
        report.system.package_manager != PackageManager::Unknown ==> (f.update_output matches Some(
            Ok(t),
        ) ==> view_all(report.package_updates@) == package_updates(
            report.system.package_manager,
            t@,
        ) && report.warnings@.len() == 0),
        report.system.package_manager != PackageManager::Unknown ==> (f.update_output matches Some(
            Err(e),
        ) ==> (accepted_text(report.system.package_manager, Err(e)) is None ==> (
        report.package_updates@.len() == 0 && report.warnings@.len() == 1 && report.warnings@[0]@
            == "Could not check package updates: package manager command failed: "@
            + process_error_text(e@)))),
        f.fwupdmgr_installed == Some(true) ==> (f.firmware_output matches Some(Ok(t)) ==> view_all(
            report.firmware.updates@,
        ) == firmware_updates(lines(t@))),
        f.fwupdmgr_installed == Some(true) ==> (f.firmware_output matches Some(Err(_))
            ==> report.firmware.updates@.len() == 0),
        f.dkms_output matches Some(Ok(t)) ==> view_all(report.dkms_modules@) == dkms_modules(
            lines(t@),
        ),
        f.dkms_output matches Some(Err(_)) ==> report.dkms_modules@.len() == 0,
        f.lspci matches Some(Ok(out)) && f.sysfs matches Some(entries) ==> view_all(
            report.devices@,
        ) == devices_of_records(lines(out.stdout@), view_all(entries@)),
        f.modules matches Some(Ok(c)) ==> view_all(report.loaded_modules@) == module_names(
            lines(c@),
        ),
        f.boot_entries matches Some(names) ==> view_all(report.kernels.installed@)
            == installed_kernels(view_all(names@)),
{
    assert(succeeded(f.kernel) && succeeded(f.architecture) && succeeded(f.lspci));
    assert(f.modules matches Some(Ok(_)));
    assert(view_all(report.warnings@).len() == report.warnings@.len());
    assert(view_all(report.package_updates@).len() == report.package_updates@.len());
    reveal_strlit("Could not check package updates: ");
    reveal_strlit("package manager command failed: ");
    reveal_strlit("Could not check package updates: package manager command failed: ");
    match f.update_output {
        Some(Err(e)) => {
            assert(view_all(report.warnings@).len() > 0 ==> view_all(report.warnings@)[0]
                == report.warnings@[0]@);
            assert("Could not check package updates: "@ + ("package manager command failed: "@
                + process_error_text(e@)) =~= "Could not check package updates: package manager command failed: "@
                + process_error_text(e@));
        },
        _ => {},
    }
}


/// A scan succeeds exactly when `/etc/os-release`, `uname -r`, `uname -m`,
/// `lspci` and `/proc/modules` all succeed; otherwise it fails with the error
/// of the first of them, in that order, that failed: a read error of
/// os-release as a distribution error, a failed `uname` as a kernel error, a
/// failed `lspci` as a hardware error (its trimmed error output when it ran
/// and exited unsuccessfully), and an unreadable `/proc/modules` as a modules
/// error.
pub proof fn scan_fails_with_the_first_failed_probe(f: ScanFacts, r: Result<ScanReport, ScanError>)
    requires
        next_kind(f) is None,
        scan_outcome(f, r),
    ensures
        r is Ok <==> (f.os_release matches Some(Ok(_)) && succeeded(f.kernel) && succeeded(
            f.architecture,
        ) && succeeded(f.lspci) && f.modules matches Some(Ok(_))),
        f.os_release matches Some(Err(m)) ==> r == Err::<ScanReport, ScanError>(
            ScanError::Distro(DistroError::Read(m)),
        ),
        f.os_release matches Some(Ok(_)) ==> (!succeeded(f.kernel) ==> r matches Err(
            ScanError::Kernel(_),
        )),
        f.os_release matches Some(Ok(_)) ==> (succeeded(f.kernel) && !succeeded(f.architecture)
            ==> r matches Err(ScanError::Kernel(_))),
        f.os_release matches Some(Ok(_)) ==> (succeeded(f.kernel) && succeeded(f.architecture) ==> (
        f.lspci matches Some(Err(m)) ==> r == Err::<ScanReport, ScanError>(
            ScanError::Hardware(HardwareError::Command(m)),
        ))),
        f.os_release matches Some(Ok(_)) ==> (succeeded(f.kernel) && succeeded(f.architecture) ==> (
        f.lspci matches Some(Ok(out)) ==> (!out.success ==> (r matches Err(ScanError::Hardware(e))
            && e@ == HardwareErrorView::Failed(trim(out.stderr@)))))),
        f.os_release matches Some(Ok(_)) ==> (succeeded(f.kernel) && succeeded(f.architecture)
            && succeeded(f.lspci) ==> (f.modules matches Some(Err(m)) ==> r == Err::<
            ScanReport,
            ScanError,
        >(ScanError::Modules(m)))),
{
    assert(f.os_release is Some);
    if f.os_release matches Some(Ok(_)) {
        assert(f.kernel is Some);
    }
    if f.os_release matches Some(Ok(_)) && succeeded(f.kernel) {
        assert(f.architecture is Some);
        if succeeded(f.architecture) {
            assert(f.lspci is Some);
            if succeeded(f.lspci) {
                assert(f.modules is Some);
            }
        }
    }
}

} // verus!
