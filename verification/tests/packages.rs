use linux_driver_booster::model::{DistributionFamily, PackageManager};
use linux_driver_booster::package_manager::{
    check_updates, detect, parse_apt, parse_dnf, parse_pacman, parse_zypper, run_allowing_exit,
    update_command, PackageError,
};
use linux_driver_booster::process::{finish, CommandOutput, ProcessError};

fn failed(code: Option<i32>) -> ProcessError {
    ProcessError::Failed {
        command: "dnf".into(),
        code,
        stdout: "kernel.x86_64 6.9 updates".into(),
        stderr: "done".into(),
    }
}

#[test]
fn apt_skips_its_header_and_reads_the_installed_version() {
    let updates = parse_apt(
        "Listing... Done\nfirefox/noble 126.0 amd64 [upgradable from: 125.0]\nvim/noble 9.1 amd64\nbroken line\n",
    );
    assert_eq!(updates.len(), 2);
    assert_eq!(updates[0].installed_version.as_deref(), Some("125.0"));
    assert_eq!(updates[0].source, "APT repository");
    assert_eq!(updates[1].installed_version, None);
    assert_eq!(updates[1].candidate_version.as_deref(), Some("9.1"));
    assert!(parse_apt("firefox/noble 126.0 amd64\n").is_empty());
}

#[test]
fn dnf_skips_metadata_lines() {
    let updates = parse_dnf(
        "Last metadata expiration check: 0:01:02 ago\n\nkernel.x86_64  6.9.4-200.fc40  updates\nSecurity kernel-core\nObsoleting Packages\nlonely\n",
    );
    assert_eq!(updates.len(), 1);
    assert_eq!(updates[0].package, "kernel.x86_64");
    assert_eq!(updates[0].candidate_version.as_deref(), Some("6.9.4-200.fc40"));
    assert_eq!(updates[0].installed_version, None);
    assert_eq!(updates[0].source, "DNF repository");
}

#[test]
fn pacman_needs_an_arrow() {
    let updates = parse_pacman("linux 6.9.1 -> 6.9.2\nmesa 24.1\n");
    assert_eq!(updates.len(), 1);
    assert_eq!(updates[0].candidate_version.as_deref(), Some("6.9.2"));
    assert_eq!(updates[0].source, "Pacman repository");
}

#[test]
fn zypper_reads_update_rows() {
    let updates = parse_zypper(
        "S | Repository | Name | Current | Available | Arch\n--+---\nv | kernel-default | 6.8.1 | 6.8.2 | repo-oss\nv | short\n",
    );
    assert_eq!(updates.len(), 1);
    assert_eq!(updates[0].package, "kernel-default");
    assert_eq!(updates[0].installed_version.as_deref(), Some("6.8.1"));
    assert_eq!(updates[0].candidate_version.as_deref(), Some("6.8.2"));
    assert_eq!(updates[0].source, "repo-oss");
}

#[test]
fn detect_prefers_the_family_manager() {
    let all = vec![
        PackageManager::Apt,
        PackageManager::Dnf,
        PackageManager::Pacman,
        PackageManager::Zypper,
    ];
    assert_eq!(detect(&DistributionFamily::Fedora, &all), PackageManager::Dnf);
    assert_eq!(detect(&DistributionFamily::Arch, &all), PackageManager::Pacman);
    assert_eq!(detect(&DistributionFamily::OpenSuse, &all), PackageManager::Zypper);
    assert_eq!(detect(&DistributionFamily::Unknown, &all), PackageManager::Apt);
    assert_eq!(
        detect(&DistributionFamily::Debian, &vec![PackageManager::Zypper, PackageManager::Pacman]),
        PackageManager::Pacman
    );
    assert_eq!(detect(&DistributionFamily::Debian, &Vec::new()), PackageManager::Unknown);
}

#[test]
fn update_commands_are_fixed_listings() {
    let apt = update_command(&PackageManager::Apt).unwrap();
    assert_eq!(apt.program, "apt");
    assert_eq!(apt.args, vec!["list".to_string(), "--upgradable".to_string()]);
    let zypper = update_command(&PackageManager::Zypper).unwrap();
    assert_eq!(zypper.args, vec!["--non-interactive".to_string(), "list-updates".to_string()]);
    assert!(update_command(&PackageManager::Unknown).is_none());
}

#[test]
fn dnf_exit_code_100_announces_updates() {
    let updates = check_updates(&PackageManager::Dnf, Err(failed(Some(100)))).unwrap();
    assert_eq!(updates.len(), 1);
    assert_eq!(updates[0].package, "kernel.x86_64");
    let joined = run_allowing_exit(Err(failed(Some(100))), &[100]).unwrap();
    assert_eq!(joined, "kernel.x86_64 6.9 updates\ndone");
}

#[test]
fn other_failures_are_package_errors() {
    assert_eq!(
        check_updates(&PackageManager::Dnf, Err(failed(Some(1)))),
        Err(PackageError::Process(failed(Some(1))))
    );
    assert_eq!(
        check_updates(&PackageManager::Apt, Err(failed(Some(100)))),
        Err(PackageError::Process(failed(Some(100))))
    );
    assert_eq!(
        run_allowing_exit(Err(failed(None)), &[100]),
        Err(PackageError::Process(failed(None)))
    );
    assert_eq!(run_allowing_exit(Ok("out".into()), &[]), Ok("out".to_string()));
}

#[test]
fn unknown_manager_has_no_updates() {
    assert_eq!(check_updates(&PackageManager::Unknown, Err(failed(Some(1)))), Ok(Vec::new()));
}

#[test]
fn error_messages() {
    let e = PackageError::Process(failed(Some(100)));
    assert_eq!(
        e.message(),
        "package manager command failed: dnf exited with status Some(100): done"
    );
    assert_eq!(
        failed(Some(-2147483648)).message(),
        "dnf exited with status Some(-2147483648): done"
    );
    assert_eq!(failed(None).message(), "dnf exited with status None: done");
    let start = ProcessError::Start { command: "apt".into(), source: "No such file".into() };
    assert_eq!(start.message(), "could not start apt: No such file");
}

#[test]
fn finish_trims_only_the_error_output() {
    let ok = finish(
        "uname",
        CommandOutput { success: true, code: Some(0), status: String::new(), stdout: " 6.8 \n".into(), stderr: "x".into() },
    );
    assert_eq!(ok, Ok(" 6.8 \n".to_string()));
    let err = finish(
        "apt",
        CommandOutput { success: false, code: Some(100), status: String::new(), stdout: "o".into(), stderr: "\t e \n".into() },
    );
    assert_eq!(
        err,
        Err(ProcessError::Failed {
            command: "apt".into(),
            code: Some(100),
            stdout: "o".into(),
            stderr: "e".into(),
        })
    );
}
