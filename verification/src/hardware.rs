use vstd::prelude::*;
use crate::model::{opt_chars, view_all, copy_opt, Device, DeviceView, DriverStatus};
use crate::process::CommandOutput;
use crate::text::{
    chars_of, filter_map, lemma_filter_map_member, lemma_filter_map_step, lines, next_word, owned, range_views,
    split_char, split_char_ranges, split_lines, string_of, trim, trim_string, views, words, is_ws,
    lemma_words_lead, lemma_split_char_lead, is_run_len, lemma_run_len, CharClass,
};

verus! {

#[derive(Debug, Clone, PartialEq, Eq)]
pub enum HardwareError {
    /// `lspci` could not be started; the text is the system's reason.
    Command(String),
    /// `lspci` exited unsuccessfully; the text is its trimmed error output.
    Failed(String),
}

pub enum HardwareErrorView {
    Command(Seq<char>),
    Failed(Seq<char>),
}

impl View for HardwareError {
    type V = HardwareErrorView;

    open spec fn view(&self) -> HardwareErrorView {
        match self {
            HardwareError::Command(m) => HardwareErrorView::Command(m@),
            HardwareError::Failed(m) => HardwareErrorView::Failed(m@),
        }
    }
}

/// The text that describes a hardware error.
pub open spec fn hardware_error_text(e: HardwareErrorView) -> Seq<char> {
    match e {
        HardwareErrorView::Command(m) => "lspci is unavailable: "@ + m,
        HardwareErrorView::Failed(m) => "lspci failed: "@ + m,
    }
}

impl HardwareError {
    /// The text that describes this error.
    pub fn message(&self) -> (r: String)
        ensures
            r@ == hardware_error_text(self@),
    {
        match self {
            HardwareError::Command(m) => {
                let mut r = owned("lspci is unavailable: ");
                r.append(m.as_str());
                r
            },
            HardwareError::Failed(m) => {
                let mut r = owned("lspci failed: ");
                r.append(m.as_str());
                r
            },
        }
    }
}

/// What sysfs shows for one PCI slot: the name of the bound driver, if a
/// driver is bound, and the contents of its `device` file as read, if readable.
#[derive(Debug, Clone, PartialEq, Eq)]
pub struct SysfsEntry {
    pub slot: String,
    pub driver: Option<String>,
    pub device_id: Option<String>,
}

pub struct SysfsEntryView {
    pub slot: Seq<char>,
    pub driver: Option<Seq<char>>,
    pub device_id: Option<Seq<char>>,
}

impl View for SysfsEntry {
    type V = SysfsEntryView;

    open spec fn view(&self) -> SysfsEntryView {
        SysfsEntryView {
            slot: self.slot@,
            driver: opt_chars(self.driver),
            device_id: opt_chars(self.device_id),
        }
    }
}

/// The driver and device id recorded for `slot`: those of the last entry for
/// it, or none when no entry names it.
pub open spec fn sysfs_lookup(entries: Seq<SysfsEntryView>, slot: Seq<char>) -> (
    Option<Seq<char>>,
    Option<Seq<char>>,
)
    decreases entries.len(),
{
    if entries.len() == 0 {
        (None, None)
    } else if entries.last().slot == slot {
        (entries.last().driver, entries.last().device_id)
    } else {
        sysfs_lookup(entries.drop_last(), slot)
    }
}

/// The fields of one record of `lspci -mm`: the slot (its first word), and
/// the first, second and third quoted strings (class, vendor, device name).
pub open spec fn lspci_fields(record: Seq<char>) -> Option<
    (Seq<char>, Seq<char>, Seq<char>, Seq<char>),
> {
    let w = words(record);
    let q = split_char(record, '"');
    if w.len() > 0 && q.len() >= 6 {
        Some((w[0], q[1], q[3], q[5]))
    } else {
        None
    }
}

pub open spec fn driver_loaded_text() -> Seq<char> {
    "The kernel reports a driver loaded; package update checks are not yet enabled."@
}

pub open spec fn driver_missing_text() -> Seq<char> {
    "No loaded kernel driver was reported for this device."@
}

/// The device that a record with these fields describes, given what sysfs shows.
pub open spec fn device_of(
    slot: Seq<char>,
    class: Seq<char>,
    vendor: Seq<char>,
    name: Seq<char>,
    driver: Option<Seq<char>>,
    device_id: Option<Seq<char>>,
) -> DeviceView {
    DeviceView {
        name,
        vendor: Some(vendor),
        device_id,
        bus: slot,
        class,
        kernel_driver: driver,
        driver_version: None,
        firmware_version: None,
        status: if driver is Some {
            DriverStatus::DriverLoaded
        } else {
            DriverStatus::MissingDriver
        },
        recommendation: if driver is Some {
            driver_loaded_text()
        } else {
            driver_missing_text()
        },
    }
}

/// The device that one record describes, if the record has its fields; its
/// device id is the trimmed contents of the slot's `device` file.
pub open spec fn lspci_device(record: Seq<char>, sysfs: Seq<SysfsEntryView>) -> Option<DeviceView> {
    match lspci_fields(record) {
        Some((slot, class, vendor, name)) => {
            let (driver, device_file) = sysfs_lookup(sysfs, slot);
            let device_id = match device_file {
                Some(text) => Some(trim(text)),
                None => None,
            };
            Some(device_of(slot, class, vendor, name, driver, device_id))
        },
        None => None,
    }
}

/// The devices that a sequence of records describes, in order.
pub open spec fn devices_of_records(records: Seq<Seq<char>>, sysfs: Seq<SysfsEntryView>) -> Seq<
    DeviceView,
> {
    filter_map(records, |r: Seq<char>| lspci_device(r, sysfs))
}

/// The slots of the records that describe a device, in order.
pub open spec fn slots_of_records(records: Seq<Seq<char>>) -> Seq<Seq<char>> {
    filter_map(
        records,
        |r: Seq<char>|
            match lspci_fields(r) {
                Some(f) => Some(f.0),
                None => None,
            },
    )
}

/// The fields of one `lspci -mm` record.
fn record_fields(line: &Vec<char>) -> (r: Option<(String, String, String, String)>)
    ensures
        match r {
            Some((slot, class, vendor, name)) => lspci_fields(line@) == Some(
                (slot@, class@, vendor@, name@),
            ),
            None => lspci_fields(line@) is None,
        },
{
    let n = line.len();
    assert(line@.subrange(0, n as int) =~= line@);
    let word = next_word(line, 0, n);
    let pieces = split_char_ranges(line, 0, n, '"');
    proof {
        assert(pieces@.len() == range_views(line@, pieces@).len());
    }
    match word {
        Some((a, b)) => {
            if pieces.len() >= 6 {
                let slot = string_of(line, a, b);
                let class = string_of(line, pieces[1].0, pieces[1].1);
                let vendor = string_of(line, pieces[3].0, pieces[3].1);
                let name = string_of(line, pieces[5].0, pieces[5].1);
                proof {
                    assert(range_views(line@, pieces@)[1] == class@);
                    assert(range_views(line@, pieces@)[3] == vendor@);
                    assert(range_views(line@, pieces@)[5] == name@);
                }
                Some((slot, class, vendor, name))
            } else {
                None
            }
        },
        None => None,
    }
}

/// What the entries record for `slot`.
fn lookup(sysfs: &Vec<SysfsEntry>, slot: &String) -> (r: (Option<String>, Option<String>))
    ensures
        (opt_chars(r.0), opt_chars(r.1)) == sysfs_lookup(view_all(sysfs@), slot@),
{
    let mut driver: Option<String> = None;
    let mut device_id: Option<String> = None;
    let mut i: usize = 0;
    while i < sysfs.len()
        invariant
            0 <= i <= sysfs.len(),
            (opt_chars(driver), opt_chars(device_id)) == sysfs_lookup(
                view_all(sysfs@).take(i as int),
                slot@,
            ),
        decreases sysfs.len() - i,
    {
        let entry = &sysfs[i];
        proof {
            assert(view_all(sysfs@).take(i + 1).drop_last() =~= view_all(sysfs@).take(i as int));
        }
        if entry.slot == *slot {
            driver = copy_opt(&entry.driver);
            device_id = copy_opt(&entry.device_id);
        }
        i += 1;
    }
    assert(view_all(sysfs@).take(sysfs@.len() as int) =~= view_all(sysfs@));
    (driver, device_id)
}

/// The devices that the records of `lspci -D -mm -k` output describe, one per
/// record that has a slot and three quoted fields, in order. A device's
/// driver and id are what `sysfs` records for its slot.
pub fn parse_lspci(output: &str, sysfs: &Vec<SysfsEntry>) -> (r: Vec<Device>)
    ensures
        view_all(r@) == devices_of_records(lines(output@), view_all(sysfs@)),
{
    let text = chars_of(output);
    let records = split_lines(&text);
    let ghost rs = views(records@);
    let ghost sv = view_all(sysfs@);
    let mut out: Vec<Device> = Vec::new();
    let mut i: usize = 0;
    while i < records.len()
        invariant
            0 <= i <= records.len(),
            rs == views(records@),
            sv == view_all(sysfs@),
            view_all(out@) == devices_of_records(rs.take(i as int), sv),
        decreases records.len() - i,
    {
        let ghost before = out@;
        proof {
            lemma_filter_map_step(rs, i as int, |r: Seq<char>| lspci_device(r, sv));
        }
        match record_fields(&records[i]) {
            Some((slot, class, vendor, name)) => {
                let (driver, device_file) = lookup(sysfs, &slot);
                let device_id = match device_file {
                    Some(text) => Some(trim_string(text.as_str())),
                    None => None,
                };
                let loaded = driver.is_some();
                let device = Device {
                    name,
                    vendor: Some(vendor),
                    device_id,
                    bus: slot,
                    class,
                    kernel_driver: driver,
                    driver_version: None,
                    firmware_version: None,
                    status: if loaded {
                        DriverStatus::DriverLoaded
                    } else {
                        DriverStatus::MissingDriver
                    },
                    recommendation: if loaded {
                        owned(
                            "The kernel reports a driver loaded; package update checks are not yet enabled.",
                        )
                    } else {
                        owned("No loaded kernel driver was reported for this device.")
                    },
                };
                out.push(device);
                proof {
                    assert(view_all(out@) =~= view_all(before).push(device@));
                }
            },
            None => {},
        }
        i += 1;
    }
    assert(rs.take(records@.len() as int) =~= rs);
    out
}

/// The slots of the records that `parse_lspci` turns into devices, in order:
/// the slots whose sysfs entries it consults.
pub fn lspci_slots(output: &str) -> (r: Vec<String>)
    ensures
        view_all(r@) == slots_of_records(lines(output@)),
{
    let text = chars_of(output);
    let records = split_lines(&text);
    let ghost rs = views(records@);
    let mut out: Vec<String> = Vec::new();
    let mut i: usize = 0;
    while i < records.len()
        invariant
            0 <= i <= records.len(),
            rs == views(records@),
            view_all(out@) == slots_of_records(rs.take(i as int)),
        decreases records.len() - i,
    {
        let ghost before = out@;
        proof {
            lemma_filter_map_step(
                rs,
                i as int,
                |r: Seq<char>|
                    match lspci_fields(r) {
                        Some(f) => Some(f.0),
                        None => None,
                    },
            );
        }
        match record_fields(&records[i]) {
            Some((slot, _, _, _)) => {
                out.push(slot);
                proof {
                    assert(view_all(out@) =~= view_all(before).push(out@.last()@));
                }
            },
            None => {},
        }
        i += 1;
    }
    assert(rs.take(records@.len() as int) =~= rs);
    out
}


/// The devices that a run of `lspci -D -mm -k` reports: those of its output
/// when it succeeded (see `parse_lspci`), and otherwise a `Failed` error with
/// its trimmed error output.
pub fn detect_pci_devices(output: CommandOutput, sysfs: &Vec<SysfsEntry>) -> (r: Result<
    Vec<Device>,
    HardwareError,
>)
    ensures
        match r {
            Ok(devices) => output.success && view_all(devices@) == devices_of_records(
                lines(output.stdout@),
                view_all(sysfs@),
            ),
            Err(e) => !output.success && e@ == HardwareErrorView::Failed(trim(output.stderr@)),
        },
{
    if !output.success {
        return Err(HardwareError::Failed(trim_string(output.stderr.as_str())));
    }
    Ok(parse_lspci(output.stdout.as_str(), sysfs))
}

/// The first word of a line, if it has one.
pub open spec fn first_word(line: Seq<char>) -> Option<Seq<char>> {
    if words(line).len() > 0 {
        Some(words(line)[0])
    } else {
        None
    }
}

/// The module names of `/proc/modules`: the first word of each line that has one.
pub open spec fn module_names(records: Seq<Seq<char>>) -> Seq<Seq<char>> {
    filter_map(records, |r: Seq<char>| first_word(r))
}

/// The names of the loaded kernel modules, given the contents of `/proc/modules`.
pub fn loaded_modules(contents: &str) -> (r: Vec<String>)
    ensures
        view_all(r@) == module_names(lines(contents@)),
{
    let text = chars_of(contents);
    let records = split_lines(&text);
    let ghost rs = views(records@);
    let mut out: Vec<String> = Vec::new();
    let mut i: usize = 0;
    while i < records.len()
        invariant
            0 <= i <= records.len(),
            rs == views(records@),
            view_all(out@) == module_names(rs.take(i as int)),
        decreases records.len() - i,
    {
        let ghost before = out@;
        proof {
            lemma_filter_map_step(rs, i as int, |r: Seq<char>| first_word(r));
        }
        let line = &records[i];
        assert(line@.subrange(0, line@.len() as int) =~= line@);
        match next_word(line, 0, line.len()) {
            Some((a, b)) => {
                out.push(string_of(line, a, b));
                proof {
                    assert(view_all(out@) =~= view_all(before).push(out@.last()@));
                }
            },
            None => {},
        }
        i += 1;
    }
    assert(rs.take(records@.len() as int) =~= rs);
    out
}


/// A reported device's status says whether a driver is loaded, never
/// `Unknown`; its recommendation says the same; and its vendor is known.
pub proof fn devices_report_their_driver(records: Seq<Seq<char>>, sysfs: Seq<SysfsEntryView>)
    ensures
        forall|i: int|
            0 <= i < devices_of_records(records, sysfs).len() ==> {
                let d = #[trigger] devices_of_records(records, sysfs)[i];
                &&& (d.status == DriverStatus::DriverLoaded) == (d.kernel_driver is Some)
                &&& d.status != DriverStatus::Unknown
                &&& d.recommendation == (if d.kernel_driver is Some {
                    driver_loaded_text()
                } else {
                    driver_missing_text()
                })
                &&& d.vendor is Some
                &&& d.driver_version is None
                &&& d.firmware_version is None
            },
{
    assert forall|i: int| 0 <= i < devices_of_records(records, sysfs).len() implies {
        let d = #[trigger] devices_of_records(records, sysfs)[i];
        &&& (d.status == DriverStatus::DriverLoaded) == (d.kernel_driver is Some)
        &&& d.status != DriverStatus::Unknown
        &&& d.recommendation == (if d.kernel_driver is Some {
            driver_loaded_text()
        } else {
            driver_missing_text()
        })
        &&& d.vendor is Some
        &&& d.driver_version is None
        &&& d.firmware_version is None
    } by {
        lemma_filter_map_member(records, |r: Seq<char>| lspci_device(r, sysfs), i);
    }
}

/// The slots that `lspci_slots` names are the buses of the devices that
/// `parse_lspci` reports, in the same order, whatever sysfs shows: the
/// entries looked up for those slots are the ones the devices use.
pub proof fn slots_are_the_device_buses(records: Seq<Seq<char>>, sysfs: Seq<SysfsEntryView>)
    ensures
        slots_of_records(records) == devices_of_records(records, sysfs).map_values(
            |d: DeviceView| d.bus,
        ),
    decreases records.len(),
{
    if records.len() > 0 {
        slots_are_the_device_buses(records.drop_last(), sysfs);
    }
    assert(slots_of_records(records) =~= devices_of_records(records, sysfs).map_values(
        |d: DeviceView| d.bus,
    ));
}


/// An `lspci -mm` record `slot "class" "vendor" "device"...` describes a
/// device on bus `slot` of that class, from that vendor and with that name,
/// with the driver that sysfs records for the slot, for any slot without
/// whitespace or quotes and any fields without quotes.
pub proof fn lspci_records_name_slot_class_vendor_and_device(
    slot: Seq<char>,
    class: Seq<char>,
    vendor: Seq<char>,
    name: Seq<char>,
    tail: Seq<char>,
    sysfs: Seq<SysfsEntryView>,
)
    requires
        slot.len() > 0,
        forall|i: int| 0 <= i < slot.len() ==> !is_ws(#[trigger] slot[i]) && slot[i] != '"',
        forall|i: int| 0 <= i < class.len() ==> #[trigger] class[i] != '"',
        forall|i: int| 0 <= i < vendor.len() ==> #[trigger] vendor[i] != '"',
        forall|i: int| 0 <= i < name.len() ==> #[trigger] name[i] != '"',
    ensures
        lspci_device(
            slot + seq![' ', '"'] + class + seq!['"', ' ', '"'] + vendor + seq!['"', ' ', '"']
                + name + seq!['"'] + tail,
            sysfs,
        ) matches Some(d) && d.bus == slot && d.class == class && d.vendor == Some(vendor)
            && d.name == name && d.kernel_driver == sysfs_lookup(sysfs, slot).0,
{
    let q = seq!['"'];
    let r5 = q + tail;
    let r4 = name + r5;
    let r3 = seq![' '] + q + r4;
    let r2 = vendor + (q + r3);
    let r1 = seq![' '] + q + r2;
    let r0 = class + (q + r1);
    let head = slot + seq![' '];
    let record = slot + seq![' ', '"'] + class + seq!['"', ' ', '"'] + vendor + seq!['"', ' ', '"']
        + name + seq!['"'] + tail;
    assert(record =~= head + (q + r0));
    let after = seq![' '] + (q + r0);
    assert(record =~= slot + after);
    assert(is_ws(' '));
    lemma_words_lead(slot, after);
    assert(words(record)[0] == slot);
    assert forall|i: int| 0 <= i < head.len() implies #[trigger] head[i] != '"' by {
        if i < slot.len() {
            assert(head[i] == slot[i]);
        }
    }
    lemma_split_char_lead(head, '"', q + r0);
    assert((q + r0).drop_first() =~= r0);
    lemma_split_char_lead(class, '"', q + r1);
    assert((q + r1).drop_first() =~= r1);
    assert(r1 =~= seq![' '] + (q + r2));
    lemma_split_char_lead(seq![' '], '"', q + r2);
    assert((q + r2).drop_first() =~= r2);
    lemma_split_char_lead(vendor, '"', q + r3);
    assert((q + r3).drop_first() =~= r3);
    assert(r3 =~= seq![' '] + (q + r4));
    lemma_split_char_lead(seq![' '], '"', q + r4);
    assert((q + r4).drop_first() =~= r4);
    lemma_split_char_lead(name, '"', r5);
    assert(r5.drop_first() =~= tail);
    let pieces = split_char(record, '"');
    assert(pieces.len() >= 6);
    assert(pieces[1] == class);
    assert(pieces[3] == vendor);
    assert(pieces[5] == name);
}

/// The entry that sysfs records for a slot is the one a device on that slot
/// uses: when exactly one entry names the slot, its driver and device file
/// are what the lookup gives; when none does, the lookup gives neither.
pub proof fn sysfs_lookup_finds_the_slot(sysfs: Seq<SysfsEntryView>, slot: Seq<char>)
    ensures
        (forall|j: int| 0 <= j < sysfs.len() ==> #[trigger] sysfs[j].slot != slot) ==> sysfs_lookup(
            sysfs,
            slot,
        ) == (None::<Seq<char>>, None::<Seq<char>>),
        forall|k: int|
            0 <= k < sysfs.len() && #[trigger] sysfs[k].slot == slot && (forall|j: int|
                0 <= j < sysfs.len() && j != k ==> sysfs[j].slot != slot) ==> sysfs_lookup(
                sysfs,
                slot,
            ) == (sysfs[k].driver, sysfs[k].device_id),
    decreases sysfs.len(),
{
    if sysfs.len() > 0 {
        let rest = sysfs.drop_last();
        sysfs_lookup_finds_the_slot(rest, slot);
        let n = sysfs.len() - 1;
        assert forall|k: int|
            0 <= k < sysfs.len() && #[trigger] sysfs[k].slot == slot && (forall|j: int|
                0 <= j < sysfs.len() && j != k ==> sysfs[j].slot != slot) implies sysfs_lookup(
            sysfs,
            slot,
        ) == (sysfs[k].driver, sysfs[k].device_id) by {
            if k < n {
                assert(sysfs[n].slot != slot);
                assert(rest[k] == sysfs[k]);
                assert forall|j: int| 0 <= j < rest.len() && j != k implies rest[j].slot != slot by {
                    assert(rest[j] == sysfs[j]);
                }
            }
        }
        if forall|j: int| 0 <= j < sysfs.len() ==> #[trigger] sysfs[j].slot != slot {
            assert(sysfs[n].slot != slot);
            assert forall|j: int| 0 <= j < rest.len() implies #[trigger] rest[j].slot != slot by {
                assert(rest[j] == sysfs[j]);
            }
        }
    }
}


/// A line of `/proc/modules` names its module in its first column, whatever
/// follows it; a line without a word names none.
pub proof fn module_lines_name_their_module(name: Seq<char>, rest: Seq<char>, blank: Seq<char>)
    requires
        name.len() > 0,
        forall|i: int| 0 <= i < name.len() ==> !is_ws(#[trigger] name[i]),
        rest.len() == 0 || is_ws(rest[0]),
        forall|i: int| 0 <= i < blank.len() ==> is_ws(#[trigger] blank[i]),
    ensures
        first_word(name + rest) == Some(name),
        first_word(blank) is None,
{
    lemma_words_lead(name, rest);
    assert(is_run_len(blank, CharClass::Space, blank.len() as int));
    lemma_run_len(blank, CharClass::Space);
}

} // verus!
