use linux_driver_booster::text::{chars_of, contains, split_lines, trim_string};
use linux_driver_booster::distro::{detect, detect_from, DistroError};
use linux_driver_booster::dkms;
use linux_driver_booster::firmware::{check, parse_updates};
use linux_driver_booster::hardware::{
    detect_pci_devices, loaded_modules, lspci_slots, parse_lspci, HardwareError, SysfsEntry,
};
use linux_driver_booster::model::{DistributionFamily, DriverStatus};
use linux_driver_booster::process::{CommandOutput, ProcessError};

#[test]
fn os_release_defaults_when_fields_are_missing() {
    let d = detect_from("NAME=Something\n").unwrap();
    assert_eq!(d.id, "unknown");
    assert_eq!(d.name, "Unknown Linux distribution");
    assert_eq!(d.version, None);
    assert_eq!(d.family, DistributionFamily::Unknown);
}

#[test]
fn os_release_values_lose_their_quotes_and_the_last_entry_wins() {
    let d = detect_from("ID=arch\nPRETTY_NAME=\"Arch Linux\"\r\nID=\"fedora\"\nnot a pair\n").unwrap();
    assert_eq!(d.id, "fedora");
    assert_eq!(d.family, DistributionFamily::Fedora);
    assert_eq!(d.name, "Arch Linux");
}

#[test]
fn os_release_families() {
    assert_eq!(detect_from("ID=pop").unwrap().family, DistributionFamily::Debian);
    assert_eq!(detect_from("ID=manjaro").unwrap().family, DistributionFamily::Arch);
    assert_eq!(detect_from("ID=opensuse-leap").unwrap().family, DistributionFamily::OpenSuse);
    assert_eq!(detect_from("ID=nobara\n").unwrap().family, DistributionFamily::Fedora);
    assert_eq!(detect_from("ID=Ubuntu\n").unwrap().family, DistributionFamily::Unknown);
    assert_eq!(detect_from("").unwrap().id, "unknown");
}

#[test]
fn os_release_value_keeps_text_after_a_second_equals_sign() {
    let d = detect_from("VERSION_ID=a=b\n").unwrap();
    assert_eq!(d.version.as_deref(), Some("a=b"));
}

#[test]
fn distro_error_message() {
    assert_eq!(
        DistroError::Read("No such file or directory (os error 2)".into()).message(),
        "could not read /etc/os-release: No such file or directory (os error 2)"
    );
}

#[test]
fn dkms_line_with_kernel_and_status() {
    let m = dkms::parse_line("nvidia/550.1, 6.8.0-1-generic, x86_64: installed").unwrap();
    assert_eq!(m.kernel.as_deref(), Some("6.8.0-1-generic, x86_64"));
    assert_eq!(m.status, "6.8.0-1-generic, x86_64: installed");
}

#[test]
fn dkms_lines_that_do_not_fit_are_skipped() {
    assert!(dkms::parse_line("nvidia 550.1 installed").is_none());
    assert!(dkms::parse_line("nvidia, added").is_none());
    let m = dkms::parse_line(" zfs/2.2.2 , added ").unwrap();
    assert_eq!(m.module, "zfs");
    assert_eq!(m.version.as_deref(), Some("2.2.2"));
    assert_eq!(m.kernel, None);
    assert_eq!(m.status, "added");
}

#[test]
fn dkms_detect_reads_each_line_and_nothing_on_failure() {
    let modules = dkms::detect(Ok("a/1, k1: installed\n\nb/2, added\n".into()));
    assert_eq!(modules.len(), 2);
    assert_eq!(modules[1].module, "b");
    let failed = dkms::detect(Err(ProcessError::Start {
        command: "dkms".into(),
        source: "not found".into(),
    }));
    assert!(failed.is_empty());
}

#[test]
fn firmware_update_lines() {
    let updates = parse_updates(
        "Devices with no available firmware updates:\n • SSD\nThinkPad X1 has firmware updates:  UEFI 1.2 \n",
    );
    assert_eq!(updates.len(), 1);
    assert_eq!(updates[0].device, "ThinkPad X1");
    assert_eq!(updates[0].summary, "UEFI 1.2");
    assert_eq!(updates[0].current_version, None);
}

#[test]
fn firmware_check_without_the_tool_checks_nothing() {
    let status = check(false, Ok("X has firmware updates: y".into()));
    assert!(!status.tool_available);
    assert!(!status.checked);
    assert!(status.updates.is_empty());
}

#[test]
fn firmware_check_with_a_failed_run() {
    let status = check(
        true,
        Err(ProcessError::Failed {
            command: "fwupdmgr".into(),
            code: Some(2),
            stdout: String::new(),
            stderr: "No updatable devices".into(),
        }),
    );
    assert!(status.tool_available && status.checked);
    assert!(status.updates.is_empty());
    let status = check(true, Ok("Dock has firmware updates: v2".into()));
    assert_eq!(status.updates.len(), 1);
}

fn record() -> &'static str {
    "0000:00:02.0 \"VGA compatible controller\" \"Intel Corporation\" \"UHD Graphics\" -p00 \"Intel Corporation\" \"UHD Graphics\""
}

#[test]
fn lspci_record_with_a_bound_driver() {
    let sysfs = vec![SysfsEntry {
        slot: "0000:00:02.0".into(),
        driver: Some("i915".into()),
        device_id: Some("0x9a49\n".into()),
    }];
    let devices = parse_lspci(record(), &sysfs);
    assert_eq!(devices.len(), 1);
    let d = &devices[0];
    assert_eq!(d.bus, "0000:00:02.0");
    assert_eq!(d.class, "VGA compatible controller");
    assert_eq!(d.kernel_driver.as_deref(), Some("i915"));
    assert_eq!(d.device_id.as_deref(), Some("0x9a49"));
    assert_eq!(d.status, DriverStatus::DriverLoaded);
    assert_eq!(
        d.recommendation,
        "The kernel reports a driver loaded; package update checks are not yet enabled."
    );
}

#[test]
fn lspci_record_without_a_driver() {
    let devices = parse_lspci(record(), &Vec::new());
    assert_eq!(devices[0].status, DriverStatus::MissingDriver);
    assert_eq!(devices[0].kernel_driver, None);
    assert_eq!(
        devices[0].recommendation,
        "No loaded kernel driver was reported for this device."
    );
}

#[test]
fn lspci_records_without_three_quoted_fields_are_skipped() {
    let text = "0000:00:1f.0 \"ISA bridge\" \"Intel\"\n   \n".to_string() + record() + "\n";
    let devices = parse_lspci(&text, &Vec::new());
    assert_eq!(devices.len(), 1);
    assert_eq!(lspci_slots(&text), vec!["0000:00:02.0".to_string()]);
}

#[test]
fn lspci_failure_keeps_the_trimmed_error_output() {
    let output = CommandOutput {
        success: false,
        code: Some(1),
        status: String::new(),
        stdout: String::new(),
        stderr: "  pcilib: cannot open /sys/bus/pci\n".into(),
    };
    let result = detect_pci_devices(output, &Vec::new());
    assert_eq!(result, Err(HardwareError::Failed("pcilib: cannot open /sys/bus/pci".into())));
    assert_eq!(
        HardwareError::Failed("x".into()).message(),
        "lspci failed: x"
    );
    assert_eq!(
        HardwareError::Command("not found".into()).message(),
        "lspci is unavailable: not found"
    );
}

#[test]
fn lspci_success_parses_the_output() {
    let output = CommandOutput {
        success: true,
        code: Some(0),
        status: String::new(),
        stdout: record().to_string(),
        stderr: String::new(),
    };
    let devices = detect_pci_devices(output, &Vec::new()).unwrap();
    assert_eq!(devices[0].name, "UHD Graphics");
}

#[test]
fn loaded_modules_take_the_first_word() {
    let modules = loaded_modules("i915 3 0 - Live 0x0\n\nsnd_hda_intel 1 0 - Live\n");
    assert_eq!(modules, vec!["i915".to_string(), "snd_hda_intel".to_string()]);
}

#[test]
fn text_helpers_follow_str() {
    let samples = ["\u{3000} a b\u{a0}\t", "", "   ", "x", "\u{85}y\u{2009}", "\u{200b}z"];
    for s in samples {
        assert_eq!(trim_string(s), s.trim());
    }
    for s in ["a\nb\r\nc\r", "a\n\n", "\n", "", "only", "x\r\n"] {
        let expected: Vec<Vec<char>> = s.lines().map(|l| l.chars().collect()).collect();
        assert_eq!(split_lines(&chars_of(s)), expected);
    }
    assert!(contains("linux-image-generic", "image"));
    assert!(!contains("firefox", "kernel"));
    assert!(contains("abc", ""));
}

#[test]
fn detect_reads_os_release_or_reports_why_not() {
    let d = detect(Ok("ID=fedora\nVERSION_ID=40\n".into())).unwrap();
    assert_eq!(d.family, DistributionFamily::Fedora);
    assert_eq!(d.version.as_deref(), Some("40"));
    assert_eq!(
        detect(Err("Permission denied (os error 13)".into())),
        Err(DistroError::Read("Permission denied (os error 13)".into()))
    );
}
