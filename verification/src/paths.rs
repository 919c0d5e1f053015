//! Where the controller keeps its state and its logs.
use vstd::prelude::*;

verus! {

/// The persistent settings and locks.
pub const STATE_ROOT: &'static str = "/data/adb/usb_samplerate_changer_webui";

/// The volatile operation logs, kept apart from the persistent state so
/// that they can be discarded on reboot.
pub const LOG_ROOT: &'static str = "/data/local/tmp/usb_samplerate_changer_webui";

} // verus!
