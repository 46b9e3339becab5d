use vstd::prelude::*;
use crate::model::{view_all, FirmwareStatus, FirmwareUpdate, FirmwareUpdateView};
use crate::process::ProcessError;
use crate::text::{
    chars_of, filter_map, lemma_filter_map_step, lines, split_lines, split_once_str,
    split_once_str_in, string_of, trim, trim_in, views, CharClass, occurs_at, lemma_find_str_at,
};

verus! {

/// The text that `fwupdmgr get-updates` puts between a device and its update summary.
pub open spec fn update_marker() -> Seq<char> {
    " has firmware updates:"@
}

/// The update that one line of `fwupdmgr get-updates` announces:
/// `<device> has firmware updates: <summary>`.
pub open spec fn firmware_entry(line: Seq<char>) -> Option<FirmwareUpdateView> {
    match split_once_str(line, update_marker()) {
        Some((device, summary)) => Some(
            FirmwareUpdateView {
                device: trim(device),
                current_version: None,
                available_version: None,
                summary: trim(summary),
            },
        ),
        None => None,
    }
}

/// The updates that the lines of `fwupdmgr get-updates` announce, in order.
pub open spec fn firmware_updates(ls: Seq<Seq<char>>) -> Seq<FirmwareUpdateView> {
    filter_map(ls, |l: Seq<char>| firmware_entry(l))
}

/// The firmware updates that the output of `fwupdmgr get-updates` announces.
pub fn parse_updates(output: &str) -> (r: Vec<FirmwareUpdate>)
    ensures
        view_all(r@) == firmware_updates(lines(output@)),
{
    let marker = chars_of(" has firmware updates:");
    let records = split_lines(&chars_of(output));
    let ghost ls = views(records@);
    let mut out: Vec<FirmwareUpdate> = Vec::new();
    let mut i: usize = 0;
    while i < records.len()
        invariant
            0 <= i <= records.len(),
            ls == views(records@),
            marker@ == update_marker(),
            view_all(out@) == firmware_updates(ls.take(i as int)),
        decreases records.len() - i,
    {
        let ghost before = out@;
        proof {
            lemma_filter_map_step(ls, i as int, |l: Seq<char>| firmware_entry(l));
        }
        let line = &records[i];
        let n = line.len();
        assert(line@.subrange(0, n as int) =~= line@);
        match split_once_str_in(line, 0, n, &marker) {
            Some(at) => {
                let (a, b) = trim_in(line, 0, at, CharClass::Space);
                let (c, d) = trim_in(line, at + marker.len(), n, CharClass::Space);
                out.push(
                    FirmwareUpdate {
                        device: string_of(line, a, b),
                        current_version: None,
                        available_version: None,
                        summary: string_of(line, c, d),
                    },
                );
                proof {
                    assert(view_all(out@) =~= view_all(before).push(out@.last()@));
                }
            },
            None => {},
        }
        i += 1;
    }
    assert(ls.take(records@.len() as int) =~= ls);
    out
}

/// The firmware status, given whether `fwupdmgr` is installed and what
/// `fwupdmgr get-updates` gave. Without the tool nothing is checked (and the
/// output is not consulted); with it the check counts as done, and a failed run
/// reports no updates.
pub fn check(tool_available: bool, output: Result<String, ProcessError>) -> (r: FirmwareStatus)
    ensures
        r.tool_available == tool_available,
        r.checked == tool_available,
        !tool_available ==> r.updates@.len() == 0,
        tool_available ==> match output {
            Ok(text) => view_all(r.updates@) == firmware_updates(lines(text@)),
            Err(_) => r.updates@.len() == 0,
        },
{
    if !tool_available {
        return FirmwareStatus { tool_available: false, updates: Vec::new(), checked: false };
    }
    let text = match output {
        Ok(text) => text,
        Err(_) => {
            return FirmwareStatus { tool_available: true, updates: Vec::new(), checked: true };
        },
    };
    FirmwareStatus { tool_available: true, updates: parse_updates(text.as_str()), checked: true }
}


/// A `fwupdmgr get-updates` line `<device> has firmware updates:<summary>`
/// announces an update of the device, trimmed, with the summary that follows,
/// trimmed, for any device name without `:`.
pub proof fn firmware_lines_name_device_and_summary(device: Seq<char>, summary: Seq<char>)
    requires
        forall|i: int| 0 <= i < device.len() ==> #[trigger] device[i] != ':',
    ensures
        firmware_entry(device + update_marker() + summary) == Some(
            FirmwareUpdateView {
                device: trim(device),
                current_version: None,
                available_version: None,
                summary: trim(summary),
            },
        ),
{
    reveal_strlit(" has firmware updates:");
    let m = update_marker();
    let line = device + m + summary;
    let d = device.len() as int;
    assert(m.len() == 22);
    assert forall|k: int| 0 <= k < 21 implies #[trigger] m[k] != ':' by {}
    assert(line.subrange(d, d + 22) =~= m);
    assert forall|j: int| 0 <= j < d implies !#[trigger] occurs_at(line, m, j) by {
        if occurs_at(line, m, j) {
            assert(line.subrange(j, j + 22)[21] == m[21]);
            assert(line[j + 21] == ':');
            if j + 21 < d {
                assert(line[j + 21] == device[j + 21]);
            } else {
                assert(line[j + 21] == m[j + 21 - d]);
            }
        }
    }
    lemma_find_str_at(line, m, d);
    assert(line.take(d) =~= device);
    assert(line.skip(d + 22) =~= summary);
}

} // verus!
