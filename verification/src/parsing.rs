//! Properties shared by the parsers of command output and system files.
use vstd::prelude::*;
use crate::distro::{os_release_entry, os_release_entries};
use crate::dkms::{dkms_entry, dkms_modules};
use crate::firmware::{firmware_entry, firmware_updates};
use crate::hardware::{
    devices_of_records, first_word, lspci_device, module_names, SysfsEntryView,
};
use crate::model::PackageManager;
use crate::package_manager::{listing_lines, package_updates, update_entry};
use crate::text::{lemma_filter_map_len, lines};

verus! {

/// Every parser reads its input line by line and reports at most one entry per
/// line, so no parser reports more entries than its input has lines.
pub proof fn at_most_one_entry_per_line(
    text: Seq<char>,
    sysfs: Seq<SysfsEntryView>,
    manager: PackageManager,
)
    ensures
        os_release_entries(lines(text)).len() <= lines(text).len(),
        dkms_modules(lines(text)).len() <= lines(text).len(),
        firmware_updates(lines(text)).len() <= lines(text).len(),
        devices_of_records(lines(text), sysfs).len() <= lines(text).len(),
        module_names(lines(text)).len() <= lines(text).len(),
        package_updates(manager, text).len() <= lines(text).len(),
{
    let ls = lines(text);
    lemma_filter_map_len(ls, |l: Seq<char>| os_release_entry(l));
    lemma_filter_map_len(ls, |l: Seq<char>| dkms_entry(l));
    lemma_filter_map_len(ls, |l: Seq<char>| firmware_entry(l));
    lemma_filter_map_len(ls, |r: Seq<char>| lspci_device(r, sysfs));
    lemma_filter_map_len(ls, |r: Seq<char>| first_word(r));
    lemma_filter_map_len(listing_lines(manager, text), |l: Seq<char>| update_entry(manager, l));
}

} // verus!
