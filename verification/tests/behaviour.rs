use linux_driver_booster::distro::detect_from;
use linux_driver_booster::dkms::parse_line;
use linux_driver_booster::hardware::parse_lspci;
use linux_driver_booster::model::{DistributionFamily, DriverStatus};
use linux_driver_booster::package_manager::{parse_apt, parse_pacman};
use linux_driver_booster::security::validate_package_id;

#[test]
fn detects_ubuntu_as_debian_family() {
    let distro =
        detect_from("ID=ubuntu\nPRETTY_NAME=\"Ubuntu 24.04 LTS\"\nVERSION_ID=\"24.04\"\n").unwrap();
    assert_eq!(distro.family, DistributionFamily::Debian);
    assert_eq!(distro.version.as_deref(), Some("24.04"));
}

#[test]
fn unknown_distribution_is_not_guessed() {
    let distro = detect_from("ID=customlinux\n").unwrap();
    assert_eq!(distro.family, DistributionFamily::Unknown);
}

#[test]
fn parses_dkms_status() {
    let module = parse_line("nvidia/550.1, 6.8.0-1-generic, x86_64: installed").unwrap();
    assert_eq!(module.module, "nvidia");
    assert_eq!(module.version.as_deref(), Some("550.1"));
}

#[test]
fn parses_machine_readable_pci_record() {
    let devices = parse_lspci(
        "0000:00:02.0 \"VGA compatible controller\" \"Intel Corporation\" \"UHD Graphics\" -p00 \"Intel Corporation\" \"UHD Graphics\"",
        &Vec::new(),
    );
    assert_eq!(devices.len(), 1);
    assert_eq!(devices[0].name, "UHD Graphics");
    assert_eq!(devices[0].vendor.as_deref(), Some("Intel Corporation"));
    assert!(matches!(
        devices[0].status,
        DriverStatus::DriverLoaded | DriverStatus::MissingDriver
    ));
}

#[test]
fn parses_apt_update_line() {
    let updates =
        parse_apt("Listing...\nlinux-image/jammy-updates 6.8.0 amd64 [upgradable from: 6.5.0]\n");
    assert_eq!(updates[0].package, "linux-image");
    assert_eq!(updates[0].candidate_version.as_deref(), Some("6.8.0"));
}

#[test]
fn parses_pacman_version_transition() {
    let updates = parse_pacman("linux 6.9.1 -> 6.9.2\n");
    assert_eq!(updates[0].installed_version.as_deref(), Some("6.9.1"));
}

#[test]
fn rejects_shell_syntax_and_paths() {
    assert!(validate_package_id("nvidia-driver-550"));
    assert!(!validate_package_id("../../run-as-root"));
    assert!(!validate_package_id("package;shutdown"));
}

#[test]
fn rejects_path_components() {
    assert!(!validate_package_id(".."));
    assert!(!validate_package_id("."));
    assert!(validate_package_id("..."));
    assert!(validate_package_id("a..b"));
    assert!(validate_package_id("a.b"));
    assert!(validate_package_id(".hidden"));
}
