# linux-driver-booster

A read-only Linux hardware and driver scanner. The library (`src/`) holds
everything the scanner decides, verified with Verus: the parsers for
`/etc/os-release`, `lspci -mm`, `/proc/modules`, `dkms status`,
`fwupdmgr get-updates` and the update listings of APT, DNF, Pacman and
Zypper; the choice of package manager; the kernel status; the assembly of a
scan report and its text rendering; the update history; and the validation of
package identifiers for a future privileged helper.

`app/` is the command-line program around it: it runs the probes that the
library's `scan::next_probe` asks for, one at a time and in its order (fixed
system commands, files, the environment), records what each found, stops when
the library asks for no more (the scan is complete or a probe failed), lets
`SystemScanner::scan` decide the result, and prints the report as text or JSON (`--json`), or the
recorded history (`--history`).

Layout of `src/`:

- `text.rs`: the text operations the parsers use (lines, words, trimming,
  splitting), each specified over sequences of characters.
- `model.rs`: the report types and their views.
- `distro.rs`, `dkms.rs`, `firmware.rs`, `hardware.rs`, `kernel.rs`,
  `package_manager.rs`, `process.rs`, `reboot.rs`: one probe each.
- `scan.rs`: the order of the probes, where a scan stops, and the report.
- `report.rs`: the report's text rendering.
- `history.rs`, `security.rs`: the update history and the helper contract.
- `parsing.rs`: properties shared by the parsers.
