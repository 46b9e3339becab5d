use linux_driver_booster::distro::DistroError;
use linux_driver_booster::hardware::{HardwareError, SysfsEntry};
use linux_driver_booster::history::{append, history_path, stamp, HistoryEvent};
use linux_driver_booster::kernel::status;
use linux_driver_booster::model::{Device, DriverStatus, PackageManager, PackageUpdate, ScanReport};
use linux_driver_booster::process::ProcessError;
use linux_driver_booster::reboot::required;
use linux_driver_booster::report::{dashboard_summary, render_report};
use linux_driver_booster::scan::{command_text, next_probe, Probe, ScanFacts};
use linux_driver_booster::process::CommandOutput;
use linux_driver_booster::security::validate_package_id;
use linux_driver_booster::{ScanError, SystemScanner};

fn event(timestamp: u64) -> HistoryEvent {
    HistoryEvent {
        timestamp,
        operation: "InstallDriver".into(),
        target: "nvidia-driver-550".into(),
        from_version: None,
        to_version: Some("550.1".into()),
        result: "ok".into(),
        reboot_required: true,
    }
}

#[test]
fn stamping_fills_only_a_missing_timestamp() {
    assert_eq!(stamp(event(0), 1700).timestamp, 1700);
    assert_eq!(stamp(event(5), 1700), event(5));
    assert_eq!(stamp(stamp(event(0), 1700), 1800), stamp(event(0), 1700));
}

#[test]
fn append_keeps_earlier_events() {
    let events = append(vec![event(1), event(2)], event(0), 99);
    assert_eq!(events.len(), 3);
    assert_eq!(events[0], event(1));
    assert_eq!(events[1], event(2));
    assert_eq!(events[2].timestamp, 99);
    assert_eq!(events[2].target, "nvidia-driver-550");
}

#[test]
fn history_path_follows_the_environment() {
    assert_eq!(
        history_path(Some("/state".into()), Some("/home/u".into())),
        "/state/linux-driver-booster/history.json"
    );
    assert_eq!(
        history_path(Some("/state/".into()), None),
        "/state/linux-driver-booster/history.json"
    );
    assert_eq!(
        history_path(None, Some("/home/u".into())),
        "/home/u/.local/state/linux-driver-booster/history.json"
    );
    assert_eq!(history_path(None, None), ".local/state/linux-driver-booster/history.json");
    assert_eq!(history_path(Some(String::new()), None), "linux-driver-booster/history.json");
}

fn update(package: &str) -> PackageUpdate {
    PackageUpdate {
        package: package.into(),
        installed_version: Some("1".into()),
        candidate_version: Some("2".into()),
        source: "APT repository".into(),
    }
}

#[test]
fn kernel_status_lists_images_and_kernel_updates() {
    let entries = vec![
        "vmlinuz-6.8.0-31-generic".to_string(),
        "initrd.img-6.8.0-31-generic".to_string(),
        "vmlinuz-vmlinuz-6.9".to_string(),
        "vmlinuz".to_string(),
    ];
    let updates = vec![update("linux-image-generic"), update("firefox"), update("kernel-core")];
    let s = status("6.8.0-31-generic", &entries, &updates);
    assert_eq!(s.running, "6.8.0-31-generic");
    assert_eq!(s.installed, vec!["6.8.0-31-generic".to_string(), "6.9".to_string()]);
    assert_eq!(s.updates, vec![update("linux-image-generic"), update("kernel-core")]);
}

#[test]
fn reboot_is_required_by_a_flag_or_exit_code_one() {
    assert!(required(true, None));
    assert!(required(false, Some(1)));
    assert!(!required(false, Some(0)));
    assert!(!required(false, None));
}

#[test]
fn package_ids() {
    assert!(validate_package_id("libfoo1:amd64"));
    assert!(validate_package_id("g++_@.-"));
    assert!(!validate_package_id(""));
    assert!(!validate_package_id("has space"));
    assert!(!validate_package_id("ümlaut"));
    assert!(validate_package_id(&"a".repeat(255)));
    assert!(!validate_package_id(&"a".repeat(256)));
}

#[test]
fn command_text_is_the_trimmed_output() {
    let ok = CommandOutput { success: true, code: Some(0), status: String::new(), stdout: "x86_64\n".into(), stderr: String::new() };
    assert_eq!(command_text(&ok), Some("x86_64".to_string()));
    let bad = CommandOutput { success: false, code: Some(1), status: String::new(), stdout: "x".into(), stderr: String::new() };
    assert_eq!(command_text(&bad), None);
}

fn device() -> Device {
    Device {
        name: "UHD Graphics".into(),
        vendor: Some("Intel".into()),
        device_id: None,
        bus: "0000:00:02.0".into(),
        class: "VGA".into(),
        kernel_driver: Some("i915".into()),
        driver_version: None,
        firmware_version: None,
        status: DriverStatus::DriverLoaded,
        recommendation: String::new(),
    }
}

fn ran(stdout: &str) -> Result<CommandOutput, String> {
    Ok(CommandOutput {
        success: true,
        code: Some(0),
        status: "exit status: 0".into(),
        stdout: stdout.into(),
        stderr: String::new(),
    })
}

fn failed_run(stderr: &str) -> Result<CommandOutput, String> {
    Ok(CommandOutput {
        success: false,
        code: Some(1),
        status: "exit status: 1".into(),
        stdout: String::new(),
        stderr: stderr.into(),
    })
}

const LSPCI: &str = "0000:00:02.0 \"VGA compatible controller\" \"Intel Corporation\" \"UHD Graphics\"\n";

fn facts() -> ScanFacts {
    let mut f = ScanFacts::new();
    f.os_release = Some(Ok("ID=ubuntu\nPRETTY_NAME=\"Ubuntu 24.04 LTS\"\n".into()));
    f.installed_managers = Some(vec![PackageManager::Dnf, PackageManager::Apt]);
    f.kernel = Some(ran("6.8.0-31-generic\n"));
    f.architecture = Some(ran("x86_64\n"));
    f.update_output = Some(Ok(
        "Listing...\nlinux-image-generic/noble 2 amd64 [upgradable from: 1]\nvim/noble 2 amd64\n".into(),
    ));
    f.fwupdmgr_installed = Some(true);
    f.firmware_output = Some(Ok("Dock has firmware updates: v2".into()));
    f.dkms_output = Some(Ok("nvidia/550, added\n".into()));
    f.boot_entries = Some(vec!["vmlinuz-6.8.0-31-generic".into(), "grub".into()]);
    f.lspci = Some(ran(LSPCI));
    f.sysfs = Some(vec![SysfsEntry {
        slot: "0000:00:02.0".into(),
        driver: Some("i915".into()),
        device_id: None,
    }]);
    f.modules = Some(Ok("i915 1 0\nsnd 2 0\n".into()));
    f.reboot_flag = Some(false);
    f.needs_restarting = Some(Some(0));
    f
}

fn kind(f: &ScanFacts) -> Option<&'static str> {
    next_probe(f).map(|p| match p {
        Probe::OsRelease => "os-release",
        Probe::InstalledManagers => "managers",
        Probe::Kernel => "kernel",
        Probe::Architecture => "architecture",
        Probe::Updates(_) => "updates",
        Probe::FirmwareTool => "firmware tool",
        Probe::Firmware => "firmware",
        Probe::Dkms => "dkms",
        Probe::BootEntries => "boot",
        Probe::Lspci => "lspci",
        Probe::Sysfs(_) => "sysfs",
        Probe::Modules => "modules",
        Probe::RebootFlag => "reboot flag",
        Probe::NeedsRestarting => "needs-restarting",
    })
}

#[test]
fn probes_run_in_order() {
    let full = facts();
    assert_eq!(kind(&full), None);
    let mut f = ScanFacts::new();
    assert_eq!(kind(&f), Some("os-release"));
    f.os_release = full.os_release.clone();
    assert_eq!(kind(&f), Some("managers"));
    f.installed_managers = full.installed_managers.clone();
    assert_eq!(kind(&f), Some("kernel"));
    f.kernel = Some(ran("6.8\n"));
    assert_eq!(kind(&f), Some("architecture"));
    f.architecture = Some(ran("x86_64\n"));
    match next_probe(&f) {
        Some(Probe::Updates(command)) => {
            assert_eq!(command.program, "apt");
            assert_eq!(command.args, vec!["list".to_string(), "--upgradable".to_string()]);
        }
        _ => panic!("the update command runs next"),
    }
    f.update_output = Some(Ok(String::new()));
    assert_eq!(kind(&f), Some("firmware tool"));
    f.fwupdmgr_installed = Some(false);
    assert_eq!(kind(&f), Some("dkms"));
    f.dkms_output = Some(Ok(String::new()));
    assert_eq!(kind(&f), Some("boot"));
    f.boot_entries = Some(Vec::new());
    assert_eq!(kind(&f), Some("lspci"));
    f.lspci = Some(ran(LSPCI));
    match next_probe(&f) {
        Some(Probe::Sysfs(slots)) => assert_eq!(slots, vec!["0000:00:02.0".to_string()]),
        _ => panic!("sysfs is read next"),
    }
    f.sysfs = Some(Vec::new());
    assert_eq!(kind(&f), Some("modules"));
    f.modules = Some(Ok(String::new()));
    assert_eq!(kind(&f), Some("reboot flag"));
    f.reboot_flag = Some(false);
    assert_eq!(kind(&f), Some("needs-restarting"));
    f.needs_restarting = Some(None);
    assert_eq!(kind(&f), None);
}

#[test]
fn probes_stop_at_the_first_failure() {
    let mut f = ScanFacts::new();
    f.os_release = Some(Err("No such file".into()));
    assert_eq!(kind(&f), None);
    assert_eq!(
        SystemScanner.scan(f),
        Err(ScanError::Distro(DistroError::Read("No such file".into())))
    );
    let mut f = ScanFacts::new();
    f.os_release = Some(Ok("ID=arch\n".into()));
    f.installed_managers = Some(Vec::new());
    f.kernel = Some(failed_run(""));
    assert_eq!(kind(&f), None);
    assert_eq!(
        SystemScanner.scan(f),
        Err(ScanError::Kernel("uname exited with exit status: 1".into()))
    );
    let mut f = facts();
    f.lspci = Some(failed_run(" no bus \n"));
    f.sysfs = None;
    f.modules = None;
    f.reboot_flag = None;
    f.needs_restarting = None;
    assert_eq!(kind(&f), None);
    assert_eq!(
        SystemScanner.scan(f),
        Err(ScanError::Hardware(HardwareError::Failed("no bus".into())))
    );
}

#[test]
fn unknown_manager_and_reboot_flag_skip_their_commands() {
    let mut f = facts();
    f.installed_managers = Some(Vec::new());
    f.update_output = None;
    f.reboot_flag = Some(true);
    f.needs_restarting = None;
    assert_eq!(kind(&f), None);
    let report = SystemScanner.scan(f).unwrap();
    assert_eq!(report.system.package_manager, PackageManager::Unknown);
    assert!(report.package_updates.is_empty());
    assert!(report.reboot_required);
}

#[test]
fn scan_assembles_the_report() {
    let report = SystemScanner.scan(facts()).unwrap();
    assert_eq!(report.system.distribution.name, "Ubuntu 24.04 LTS");
    assert_eq!(report.system.package_manager, PackageManager::Apt);
    assert_eq!(report.system.kernel, "6.8.0-31-generic");
    assert_eq!(report.system.architecture, "x86_64");
    assert_eq!(report.kernels.running, report.system.kernel);
    assert_eq!(report.kernels.installed, vec!["6.8.0-31-generic".to_string()]);
    assert_eq!(report.kernels.updates.len(), 1);
    assert_eq!(report.kernels.updates[0].package, "linux-image-generic");
    assert_eq!(report.package_updates.len(), 2);
    assert!(report.firmware.checked && report.firmware.tool_available);
    assert_eq!(report.firmware.updates.len(), 1);
    assert_eq!(report.dkms_modules[0].module, "nvidia");
    assert_eq!(report.devices[0].kernel_driver.as_deref(), Some("i915"));
    assert_eq!(report.loaded_modules, vec!["i915".to_string(), "snd".to_string()]);
    assert!(!report.reboot_required);
    assert!(report.warnings.is_empty());
}

#[test]
fn failed_update_check_becomes_a_warning() {
    let mut f = facts();
    f.update_output = Some(Err(ProcessError::Start {
        command: "apt".into(),
        source: "not found".into(),
    }));
    let report = SystemScanner.scan(f).unwrap();
    assert!(report.package_updates.is_empty());
    assert!(report.kernels.updates.is_empty());
    assert_eq!(
        report.warnings,
        vec!["Could not check package updates: package manager command failed: could not start apt: not found".to_string()]
    );
}

#[test]
fn later_failures_and_messages() {
    let mut f = facts();
    f.architecture = Some(Err("No such file".into()));
    f.lspci = Some(failed_run("x"));
    assert_eq!(SystemScanner.scan(f), Err(ScanError::Kernel("No such file".into())));
    let mut f = facts();
    f.lspci = Some(Err("not found".into()));
    f.modules = Some(Err("denied".into()));
    assert_eq!(
        SystemScanner.scan(f),
        Err(ScanError::Hardware(HardwareError::Command("not found".into())))
    );
    let mut f = facts();
    f.modules = Some(Err("denied".into()));
    let error = SystemScanner.scan(f).unwrap_err();
    assert_eq!(error.message(), "could not read loaded modules: denied");
    assert_eq!(
        ScanError::Kernel("boom".into()).message(),
        "could not determine the running kernel: boom"
    );
    assert_eq!(ScanError::Hardware(HardwareError::Failed("x".into())).message(), "lspci failed: x");
}

#[test]
fn text_report_lines() {
    let mut report: ScanReport = SystemScanner.scan(facts()).unwrap();
    report.package_updates[1].candidate_version = None;
    report.warnings.push("careful".into());
    let mut missing = device();
    missing.kernel_driver = None;
    missing.status = DriverStatus::MissingDriver;
    report.devices.push(missing);
    let lines = render_report(&report);
    let expected: Vec<String> = vec![
        "Linux Driver Booster 0.1",
        "",
        "OS: Ubuntu 24.04 LTS",
        "Kernel: 6.8.0-31-generic",
        "Architecture: x86_64",
        "Package manager: Apt",
        "Updates available: 2",
        "Firmware updates: 1",
        "Running kernel: 6.8.0-31-generic",
        "Installed kernels: 1",
        "DKMS modules: 1",
        "Reboot required: no",
        "",
        "Hardware:",
        "[OK] UHD Graphics (i915)",
        "[!!] UHD Graphics (no driver)",
        "",
        "Loaded kernel modules: 2",
        "[UPDATE] linux-image-generic -> 2",
        "[UPDATE] vim -> unknown",
        "[WARN] careful",
    ]
    .into_iter()
    .map(String::from)
    .collect();
    assert_eq!(lines, expected);
}

#[test]
fn dashboard_summary_counts() {
    let report = SystemScanner.scan(facts()).unwrap();
    assert_eq!(
        dashboard_summary(&Ok(report)),
        "1 devices scanned\n2 package updates\n1 firmware updates\n1 DKMS modules\nReboot required: no"
    );
    let failed: Result<ScanReport, ScanError> = Err(ScanError::Modules("denied".into()));
    assert_eq!(dashboard_summary(&failed), "Scan failed: could not read loaded modules: denied");
}
