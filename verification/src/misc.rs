//! Travel mode (the cover no longer wakes the device) and requests for the
//! quality or the performance display mode.

use vstd::prelude::*;

use crate::sys_handler::SysfsWrite;
use crate::text::{all_whitespace, chars_eq, chars_of, lemma_text_reads_back, trimmed_end};

verus! {

/// The wakeup control of the cover's keys.
pub open spec fn cover_wakeup_path() -> Seq<char> {
    "/sys/devices/platform/gpio-keys/power/wakeup"@
}

/// Travel mode as `GetTravelMode` reports it, given the value of the cover
/// wakeup file: 1 where wakeup is `disabled`, else 0.
pub open spec fn travel_mode_value(wakeup_state: Seq<char>) -> u32 {
    if wakeup_state == "disabled"@ {
        1
    } else {
        0
    }
}

/// The signal argument that a request for display mode `mode_request`
/// gives: the mode itself for 0 (quality) and 1 (performance), none for any
/// other value.
pub open spec fn requested_mode_signal(mode_request: u8) -> Option<u8> {
    if mode_request <= 1 {
        Some(mode_request)
    } else {
        None
    }
}

/// The path of the cover wakeup control.
pub fn cover_wakeup_file() -> (p: String)
    ensures
        p@ == cover_wakeup_path(),
{
    "/sys/devices/platform/gpio-keys/power/wakeup".to_owned()
}

/// The write that enables travel mode: cover wakeup disabled.
pub fn enable_travel_mode() -> (w: SysfsWrite)
    ensures
        w.path@ == cover_wakeup_path(),
        w.value@ == "disabled"@,
{
    SysfsWrite { path: cover_wakeup_file(), value: "disabled".to_owned() }
}

/// The write that disables travel mode: cover wakeup enabled.
pub fn disable_travel_mode() -> (w: SysfsWrite)
    ensures
        w.path@ == cover_wakeup_path(),
        w.value@ == "enabled"@,
{
    SysfsWrite { path: cover_wakeup_file(), value: "enabled".to_owned() }
}

/// Whether travel mode is on (1) or off (0), given the value of the cover
/// wakeup file (as `read_file` gives it).
pub fn get_travel_mode(wakeup_state: &str) -> (r: u32)
    ensures
        r == travel_mode_value(wakeup_state@),
{
    let s = chars_of(wakeup_state);
    let disabled = chars_of("disabled");
    if chars_eq(s.as_slice(), disabled.as_slice()) {
        1
    } else {
        0
    }
}

/// The signal to emit for a request of display mode `mode_request`, if any.
pub fn request_quality_or_performance_mode(mode_request: u8) -> (r: Option<u8>)
    ensures
        r == requested_mode_signal(mode_request),
{
    if mode_request == 0 || mode_request == 1 {
        Some(mode_request)
    } else {
        None
    }
}

/// Reading the cover wakeup file back after travel mode was enabled (with
/// any trailing whitespace) reports travel mode on.
pub proof fn lemma_enabled_travel_mode_reads_back(ws: Seq<char>)
    requires
        all_whitespace(ws),
    ensures
        travel_mode_value(trimmed_end("disabled"@ + ws)) == 1,
{
    reveal_strlit("disabled");
    lemma_text_reads_back("disabled"@, ws);
}

/// Reading the cover wakeup file back after travel mode was disabled (with
/// any trailing whitespace) reports travel mode off.
pub proof fn lemma_disabled_travel_mode_reads_back(ws: Seq<char>)
    requires
        all_whitespace(ws),
    ensures
        travel_mode_value(trimmed_end("enabled"@ + ws)) == 0,
{
    reveal_strlit("disabled");
    reveal_strlit("enabled");
    lemma_text_reads_back("enabled"@, ws);
    assert("enabled"@.len() != "disabled"@.len());
}

} // verus!
