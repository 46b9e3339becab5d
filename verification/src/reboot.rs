use vstd::prelude::*;

verus! {

/// Whether a reboot is required: a reboot flag file exists
/// (`/run/reboot-required` or `/var/run/reboot-required`), or
/// `needs-restarting -r` exited with code 1. `needs_restarting_exit` is `None`
/// when that command was not run, could not be started, or was ended by a signal.
pub fn required(flag_file_present: bool, needs_restarting_exit: Option<i32>) -> (r: bool)
    ensures
        r == (flag_file_present || needs_restarting_exit == Some(1i32)),
{
    flag_file_present || match needs_restarting_exit {
        Some(code) => code == 1,
        None => false,
    }
}

} // verus!
