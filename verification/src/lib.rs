pub mod distro;
pub mod dkms;
pub mod firmware;
pub mod hardware;
pub mod history;
pub mod kernel;
pub mod model;
pub mod package_manager;
pub mod parsing;
pub mod process;
pub mod reboot;
pub mod report;
pub mod scan;
pub mod security;
pub mod text;

pub use scan::{ScanError, SystemScanner};
