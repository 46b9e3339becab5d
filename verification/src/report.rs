use vstd::prelude::*;
use crate::model::{
    view_all, DeviceView, DriverStatus, PackageManager, PackageUpdateView, ScanReport,
};
use crate::scan::{scan_error_text, ScanError};
use crate::text::{decimal, owned, push_decimal, push_str};

verus! {

/// `{:?}` of a package manager.
pub open spec fn manager_name(m: PackageManager) -> Seq<char> {
    match m {
        PackageManager::Apt => "Apt"@,
        PackageManager::Dnf => "Dnf"@,
        PackageManager::Pacman => "Pacman"@,
        PackageManager::Zypper => "Zypper"@,
        PackageManager::Unknown => "Unknown"@,
    }
}

pub open spec fn yes_no(b: bool) -> Seq<char> {
    if b {
        "yes"@
    } else {
        "no"@
    }
}

/// The mark of a device's driver status in the report.
pub open spec fn status_mark(s: DriverStatus) -> Seq<char> {
    match s {
        DriverStatus::DriverLoaded => "OK"@,
        DriverStatus::MissingDriver => "!!"@,
        DriverStatus::Unknown => "??"@,
    }
}

/// `[mark] name (driver)`, with `no driver` when none is loaded.
pub open spec fn device_line(d: DeviceView) -> Seq<char> {
    "["@ + status_mark(d.status) + "] "@ + d.name + " ("@ + match d.kernel_driver {
        Some(k) => k,
        None => "no driver"@,
    } + ")"@
}

/// `[UPDATE] package -> candidate`, with `unknown` when no candidate is known.
pub open spec fn update_line(u: PackageUpdateView) -> Seq<char> {
    "[UPDATE] "@ + u.package + " -> "@ + match u.candidate_version {
        Some(c) => c,
        None => "unknown"@,
    }
}

/// The lines of the text report of a scan, as the command line prints them.
pub open spec fn report_text(r: ScanReport) -> Seq<Seq<char>> {
    seq![
        "Linux Driver Booster 0.1"@,
        Seq::empty(),
        "OS: "@ + r.system.distribution.name@,
        "Kernel: "@ + r.system.kernel@,
        "Architecture: "@ + r.system.architecture@,
        "Package manager: "@ + manager_name(r.system.package_manager),
        "Updates available: "@ + decimal(r.package_updates@.len()),
        "Firmware updates: "@ + decimal(r.firmware.updates@.len()),
        "Running kernel: "@ + r.kernels.running@,
        "Installed kernels: "@ + decimal(r.kernels.installed@.len()),
        "DKMS modules: "@ + decimal(r.dkms_modules@.len()),
        "Reboot required: "@ + yes_no(r.reboot_required),
        Seq::empty(),
        "Hardware:"@,
    ] + view_all(r.devices@).map_values(|d: DeviceView| device_line(d)) + seq![
        Seq::empty(),
        "Loaded kernel modules: "@ + decimal(r.loaded_modules@.len()),
    ] + view_all(r.package_updates@).map_values(|u: PackageUpdateView| update_line(u))
        + view_all(r.warnings@).map_values(|w: Seq<char>| "[WARN] "@ + w)
}

fn labelled(label: &str, value: &str) -> (r: String)
    ensures
        r@ == label@ + value@,
{
    let mut r = owned(label);
    push_str(&mut r, value);
    r
}

fn counted(label: &str, n: usize) -> (r: String)
    ensures
        r@ == label@ + decimal(n as nat),
{
    let mut r = owned(label);
    push_decimal(&mut r, n as u64);
    r
}

/// The lines of the text report of a scan.
pub fn render_report(report: &ScanReport) -> (r: Vec<String>)
    ensures
        view_all(r@) == report_text(*report),
{
    let mut out: Vec<String> = Vec::new();
    out.push(owned("Linux Driver Booster 0.1"));
    out.push(String::new());
    out.push(labelled("OS: ", report.system.distribution.name.as_str()));
    out.push(labelled("Kernel: ", report.system.kernel.as_str()));
    out.push(labelled("Architecture: ", report.system.architecture.as_str()));
    let manager = match report.system.package_manager {
        PackageManager::Apt => "Apt",
        PackageManager::Dnf => "Dnf",
        PackageManager::Pacman => "Pacman",
        PackageManager::Zypper => "Zypper",
        PackageManager::Unknown => "Unknown",
    };
    out.push(labelled("Package manager: ", manager));
    out.push(counted("Updates available: ", report.package_updates.len()));
    out.push(counted("Firmware updates: ", report.firmware.updates.len()));
    out.push(labelled("Running kernel: ", report.kernels.running.as_str()));
    out.push(counted("Installed kernels: ", report.kernels.installed.len()));
    out.push(counted("DKMS modules: ", report.dkms_modules.len()));
    out.push(labelled("Reboot required: ", if report.reboot_required { "yes" } else { "no" }));
    out.push(String::new());
    out.push(owned("Hardware:"));
    let ghost head = view_all(out@);
    assert(head =~= report_text(*report).take(14));
    let ghost devs = view_all(report.devices@).map_values(|d: DeviceView| device_line(d));
    let mut i: usize = 0;
    while i < report.devices.len()
        invariant
            0 <= i <= report.devices.len(),
            devs == view_all(report.devices@).map_values(|d: DeviceView| device_line(d)),
            view_all(out@) == head + devs.take(i as int),
        decreases report.devices.len() - i,
    {
        let d = &report.devices[i];
        let mark = match d.status {
            DriverStatus::DriverLoaded => "OK",
            DriverStatus::MissingDriver => "!!",
            DriverStatus::Unknown => "??",
        };
        let mut line = owned("[");
        push_str(&mut line, mark);
        push_str(&mut line, "] ");
        push_str(&mut line, d.name.as_str());
        push_str(&mut line, " (");
        match &d.kernel_driver {
            Some(k) => push_str(&mut line, k.as_str()),
            None => push_str(&mut line, "no driver"),
        }
        push_str(&mut line, ")");
        let ghost before = out@;
        proof {
            assert(line@ =~= device_line(d@));
        }
        out.push(line);
        proof {
            assert(view_all(out@) =~= view_all(before).push(line@));
            assert(devs.take(i + 1) =~= devs.take(i as int).push(devs[i as int]));
        }
        i += 1;
    }
    assert(devs.take(report.devices@.len() as int) =~= devs);
    out.push(String::new());
    let ghost before = out@;
    out.push(counted("Loaded kernel modules: ", report.loaded_modules.len()));
    assert(view_all(out@) =~= view_all(before).push(out@.last()@));
    let ghost head2 = view_all(out@);
    assert(head2 =~= head + devs + seq![
        Seq::empty(),
        "Loaded kernel modules: "@ + decimal(report.loaded_modules@.len()),
    ]);
    let ghost ups = view_all(report.package_updates@).map_values(
        |u: PackageUpdateView| update_line(u),
    );
    let mut j: usize = 0;
    while j < report.package_updates.len()
        invariant
            0 <= j <= report.package_updates.len(),
            ups == view_all(report.package_updates@).map_values(
                |u: PackageUpdateView| update_line(u),
            ),
            view_all(out@) == head2 + ups.take(j as int),
        decreases report.package_updates.len() - j,
    {
        let u = &report.package_updates[j];
        let mut line = owned("[UPDATE] ");
        push_str(&mut line, u.package.as_str());
        push_str(&mut line, " -> ");
        match &u.candidate_version {
            Some(c) => push_str(&mut line, c.as_str()),
            None => push_str(&mut line, "unknown"),
        }
        let ghost before = out@;
        proof {
            assert(line@ =~= update_line(u@));
        }
        out.push(line);
        proof {
            assert(view_all(out@) =~= view_all(before).push(line@));
            assert(ups.take(j + 1) =~= ups.take(j as int).push(ups[j as int]));
        }
        j += 1;
    }
    assert(ups.take(report.package_updates@.len() as int) =~= ups);
    let ghost head3 = view_all(out@);
    let ghost warns = view_all(report.warnings@).map_values(|w: Seq<char>| "[WARN] "@ + w);
    let mut k: usize = 0;
    while k < report.warnings.len()
        invariant
            0 <= k <= report.warnings.len(),
            warns == view_all(report.warnings@).map_values(|w: Seq<char>| "[WARN] "@ + w),
            view_all(out@) == head3 + warns.take(k as int),
        decreases report.warnings.len() - k,
    {
        let line = labelled("[WARN] ", report.warnings[k].as_str());
        let ghost before = out@;
        out.push(line);
        proof {
            assert(view_all(out@) =~= view_all(before).push(line@));
            assert(warns.take(k + 1) =~= warns.take(k as int).push(warns[k as int]));
        }
        k += 1;
    }
    assert(warns.take(report.warnings@.len() as int) =~= warns);
    proof {
        assert(view_all(out@) =~= report_text(*report));
    }
    out
}

/// The text that the dashboard shows after a scan.
pub open spec fn dashboard_text(result: Result<ScanReport, ScanError>) -> Seq<char> {
    match result {
        Ok(r) => decimal(r.devices@.len()) + " devices scanned\n"@ + decimal(
            r.package_updates@.len(),
        ) + " package updates\n"@ + decimal(r.firmware.updates@.len()) + " firmware updates\n"@
            + decimal(r.dkms_modules@.len()) + " DKMS modules\nReboot required: "@ + yes_no(
            r.reboot_required,
        ),
        Err(e) => "Scan failed: "@ + scan_error_text(e),
    }
}

/// The text that the dashboard shows after a scan: the counts of what the scan
/// found, or why it failed.
pub fn dashboard_summary(result: &Result<ScanReport, ScanError>) -> (r: String)
    ensures
        r@ == dashboard_text(*result),
{
    match result {
        Ok(report) => {
            let mut r = String::new();
            push_decimal(&mut r, report.devices.len() as u64);
            push_str(&mut r, " devices scanned\n");
            push_decimal(&mut r, report.package_updates.len() as u64);
            push_str(&mut r, " package updates\n");
            push_decimal(&mut r, report.firmware.updates.len() as u64);
            push_str(&mut r, " firmware updates\n");
            push_decimal(&mut r, report.dkms_modules.len() as u64);
            push_str(&mut r, " DKMS modules\nReboot required: ");
            push_str(&mut r, if report.reboot_required { "yes" } else { "no" });
            proof {
                assert(r@ =~= dashboard_text(*result));
            }
            r
        },
        Err(e) => {
            let m = e.message();
            labelled("Scan failed: ", m.as_str())
        },
    }
}


/// The report's header lines carry the report's own values and counts: the
/// operating system, kernel and architecture; the numbers of pending updates,
/// firmware updates, installed kernels and DKMS modules; the running kernel
/// and whether a reboot is required; then one line `[mark] name (driver)` per
/// device, the number of loaded modules, one line `[UPDATE] package ->
/// candidate` per update and one per warning.
pub proof fn report_lines_carry_the_counts(r: ScanReport)
    ensures
        report_text(r).len() == 16 + r.devices@.len() + r.package_updates@.len()
            + r.warnings@.len(),
        report_text(r)[0] == "Linux Driver Booster 0.1"@,
        report_text(r)[2] == "OS: "@ + r.system.distribution.name@,
        report_text(r)[3] == "Kernel: "@ + r.system.kernel@,
        report_text(r)[4] == "Architecture: "@ + r.system.architecture@,
        report_text(r)[6] == "Updates available: "@ + decimal(r.package_updates@.len()),
        report_text(r)[7] == "Firmware updates: "@ + decimal(r.firmware.updates@.len()),
        report_text(r)[8] == "Running kernel: "@ + r.kernels.running@,
        report_text(r)[9] == "Installed kernels: "@ + decimal(r.kernels.installed@.len()),
        report_text(r)[10] == "DKMS modules: "@ + decimal(r.dkms_modules@.len()),
        report_text(r)[11] == "Reboot required: "@ + (if r.reboot_required {
            "yes"@
        } else {
            "no"@
        }),
        report_text(r)[5] == "Package manager: "@ + match r.system.package_manager {
            PackageManager::Apt => "Apt"@,
            PackageManager::Dnf => "Dnf"@,
            PackageManager::Pacman => "Pacman"@,
            PackageManager::Zypper => "Zypper"@,
            PackageManager::Unknown => "Unknown"@,
        },
        report_text(r)[13] == "Hardware:"@,
        forall|i: int|
            0 <= i < r.devices@.len() ==> #[trigger] report_text(r)[14 + i] == "["@ + (
            match r.devices@[i].status {
                DriverStatus::DriverLoaded => "OK"@,
                DriverStatus::MissingDriver => "!!"@,
                DriverStatus::Unknown => "??"@,
            }) + "] "@ + r.devices@[i].name@ + " ("@ + (match r.devices@[i].kernel_driver {
                Some(k) => k@,
                None => "no driver"@,
            }) + ")"@,
        forall|j: int|
            0 <= j < r.package_updates@.len() ==> #[trigger] report_text(r)[16
                + r.devices@.len() as int + j] == "[UPDATE] "@ + r.package_updates@[j].package@
                + " -> "@ + (match r.package_updates@[j].candidate_version {
                Some(c) => c@,
                None => "unknown"@,
            }),
        report_text(r)[15 + r.devices@.len() as int] == "Loaded kernel modules: "@ + decimal(
            r.loaded_modules@.len(),
        ),
        forall|i: int|
            0 <= i < r.warnings@.len() ==> #[trigger] report_text(r)[16 + r.devices@.len() as int
                + r.package_updates@.len() as int + i] == "[WARN] "@ + r.warnings@[i]@,
{
    let t = report_text(r);
    let d = view_all(r.devices@).map_values(|d: DeviceView| device_line(d));
    let u = view_all(r.package_updates@).map_values(|u: PackageUpdateView| update_line(u));
    let w = view_all(r.warnings@).map_values(|w: Seq<char>| "[WARN] "@ + w);
    assert(d.len() == r.devices@.len());
    assert(u.len() == r.package_updates@.len());
    assert(w.len() == r.warnings@.len());
    assert forall|i: int| 0 <= i < r.devices@.len() implies #[trigger] t[14 + i] == d[i] by {}
    assert forall|j: int| 0 <= j < r.package_updates@.len() implies #[trigger] t[16
        + r.devices@.len() as int + j] == u[j] by {}
    assert forall|i: int| 0 <= i < r.warnings@.len() implies #[trigger] t[16 + r.devices@.len() as int
        + r.package_updates@.len() as int + i] == "[WARN] "@ + r.warnings@[i]@ by {
        assert(w[i] == "[WARN] "@ + r.warnings@[i]@);
    }
}


/// The dashboard shows, one per line, the numbers of devices scanned, of
/// package updates, of firmware updates and of DKMS modules, then whether a
/// reboot is required; after a failed scan it shows why the scan failed.
pub proof fn dashboard_counts_what_the_scan_found(r: ScanReport, e: ScanError)
    ensures
        dashboard_text(Ok(r)) == decimal(r.devices@.len()) + " devices scanned\n"@ + decimal(
            r.package_updates@.len(),
        ) + " package updates\n"@ + decimal(r.firmware.updates@.len()) + " firmware updates\n"@
            + decimal(r.dkms_modules@.len()) + " DKMS modules\n"@ + "Reboot required: "@ + (if r.reboot_required {
            "yes"@
        } else {
            "no"@
        }),
        dashboard_text(Err(e)) == "Scan failed: "@ + scan_error_text(e),
{
    reveal_strlit(" DKMS modules\nReboot required: ");
    reveal_strlit(" DKMS modules\n");
    reveal_strlit("Reboot required: ");
    assert(" DKMS modules\n"@ + "Reboot required: "@ =~= " DKMS modules\nReboot required: "@);
}

} // verus!
