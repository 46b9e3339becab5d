use vstd::prelude::*;

verus! {

/// The characters of an optional string.
pub open spec fn opt_chars(o: Option<String>) -> Option<Seq<char>> {
    match o {
        Some(s) => Some(s@),
        None => None,
    }
}

/// The views of the items of a sequence.
pub open spec fn view_all<T: View>(s: Seq<T>) -> Seq<T::V> {
    s.map_values(|x: T| x@)
}

/// A copy of an optional string.
pub fn copy_opt(o: &Option<String>) -> (r: Option<String>)
    ensures
        opt_chars(r) == opt_chars(*o),
{
    match o {
        Some(s) => Some(s.clone()),
        None => None,
    }
}

#[derive(Debug, Clone, PartialEq, Eq)]
pub struct SystemInfo {
    pub distribution: Distribution,
    pub kernel: String,
    pub architecture: String,
    pub package_manager: PackageManager,
}

#[derive(Debug, Clone, PartialEq, Eq)]
pub struct Distribution {
    pub id: String,
    pub name: String,
    pub version: Option<String>,
    pub family: DistributionFamily,
}

pub struct DistributionView {
    pub id: Seq<char>,
    pub name: Seq<char>,
    pub version: Option<Seq<char>>,
    pub family: DistributionFamily,
}

impl View for Distribution {
    type V = DistributionView;

    open spec fn view(&self) -> DistributionView {
        DistributionView {
            id: self.id@,
            name: self.name@,
            version: opt_chars(self.version),
            family: self.family,
        }
    }
}

#[derive(Debug, Clone, Copy, PartialEq, Eq, Structural)]
pub enum DistributionFamily {
    Debian,
    Fedora,
    Arch,
    OpenSuse,
    Unknown,
}

#[derive(Debug, Clone, Copy, PartialEq, Eq, Structural)]
pub enum PackageManager {
    Apt,
    Dnf,
    Pacman,
    Zypper,
    Unknown,
}

#[derive(Debug, Clone, PartialEq, Eq)]
pub struct Device {
    pub name: String,
    pub vendor: Option<String>,
    pub device_id: Option<String>,
    pub bus: String,
    pub class: String,
    pub kernel_driver: Option<String>,
    pub driver_version: Option<String>,
    pub firmware_version: Option<String>,
    pub status: DriverStatus,
    pub recommendation: String,
}

pub struct DeviceView {
    pub name: Seq<char>,
    pub vendor: Option<Seq<char>>,
    pub device_id: Option<Seq<char>>,
    pub bus: Seq<char>,
    pub class: Seq<char>,
    pub kernel_driver: Option<Seq<char>>,
    pub driver_version: Option<Seq<char>>,
    pub firmware_version: Option<Seq<char>>,
    pub status: DriverStatus,
    pub recommendation: Seq<char>,
}

impl View for Device {
    type V = DeviceView;

    open spec fn view(&self) -> DeviceView {
        DeviceView {
            name: self.name@,
            vendor: opt_chars(self.vendor),
            device_id: opt_chars(self.device_id),
            bus: self.bus@,
            class: self.class@,
            kernel_driver: opt_chars(self.kernel_driver),
            driver_version: opt_chars(self.driver_version),
            firmware_version: opt_chars(self.firmware_version),
            status: self.status,
            recommendation: self.recommendation@,
        }
    }
}

#[derive(Debug, Clone, Copy, PartialEq, Eq, Structural)]
pub enum DriverStatus {
    DriverLoaded,
    MissingDriver,
    Unknown,
}

#[derive(Debug, Clone, PartialEq, Eq)]
pub struct ScanReport {
    pub system: SystemInfo,
    pub devices: Vec<Device>,
    pub loaded_modules: Vec<String>,
    pub package_updates: Vec<PackageUpdate>,
    pub firmware: FirmwareStatus,
    pub dkms_modules: Vec<DkmsModule>,
    pub kernels: KernelStatus,
    pub reboot_required: bool,
    pub warnings: Vec<String>,
}

#[derive(Debug, Clone, PartialEq, Eq)]
pub struct PackageUpdate {
    pub package: String,
    pub installed_version: Option<String>,
    pub candidate_version: Option<String>,
    pub source: String,
}

pub struct PackageUpdateView {
    pub package: Seq<char>,
    pub installed_version: Option<Seq<char>>,
    pub candidate_version: Option<Seq<char>>,
    pub source: Seq<char>,
}

impl View for PackageUpdate {
    type V = PackageUpdateView;

    open spec fn view(&self) -> PackageUpdateView {
        PackageUpdateView {
            package: self.package@,
            installed_version: opt_chars(self.installed_version),
            candidate_version: opt_chars(self.candidate_version),
            source: self.source@,
        }
    }
}

impl PackageUpdate {
    /// A copy with the same text in every field.
    pub fn duplicate(&self) -> (r: PackageUpdate)
        ensures
            r@ == self@,
    {
        PackageUpdate {
            package: self.package.clone(),
            installed_version: copy_opt(&self.installed_version),
            candidate_version: copy_opt(&self.candidate_version),
            source: self.source.clone(),
        }
    }
}

#[derive(Debug, Clone, PartialEq, Eq)]
pub struct FirmwareStatus {
    pub tool_available: bool,
    pub updates: Vec<FirmwareUpdate>,
    pub checked: bool,
}

#[derive(Debug, Clone, PartialEq, Eq)]
pub struct FirmwareUpdate {
    pub device: String,
    pub current_version: Option<String>,
    pub available_version: Option<String>,
    pub summary: String,
}

pub struct FirmwareUpdateView {
    pub device: Seq<char>,
    pub current_version: Option<Seq<char>>,
    pub available_version: Option<Seq<char>>,
    pub summary: Seq<char>,
}

impl View for FirmwareUpdate {
    type V = FirmwareUpdateView;

    open spec fn view(&self) -> FirmwareUpdateView {
        FirmwareUpdateView {
            device: self.device@,
            current_version: opt_chars(self.current_version),
            available_version: opt_chars(self.available_version),
            summary: self.summary@,
        }
    }
}

#[derive(Debug, Clone, PartialEq, Eq)]
pub struct DkmsModule {
    pub module: String,
    pub version: Option<String>,
    pub kernel: Option<String>,
    pub status: String,
}

pub struct DkmsModuleView {
    pub module: Seq<char>,
    pub version: Option<Seq<char>>,
    pub kernel: Option<Seq<char>>,
    pub status: Seq<char>,
}

impl View for DkmsModule {
    type V = DkmsModuleView;

    open spec fn view(&self) -> DkmsModuleView {
        DkmsModuleView {
            module: self.module@,
            version: opt_chars(self.version),
            kernel: opt_chars(self.kernel),
            status: self.status@,
        }
    }
}

#[derive(Debug, Clone, PartialEq, Eq)]
pub struct KernelStatus {
    pub running: String,
    pub installed: Vec<String>,
    pub updates: Vec<PackageUpdate>,
}

} // verus!
