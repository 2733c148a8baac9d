//! The system-wide screen-off time, which the desktop stores in
//! milliseconds (`None` when off) and the screensaver settings hold in
//! seconds (0 when off).
use vstd::prelude::*;

verus! {

/// Seconds of a stored screen-off time: whole seconds of the milliseconds,
/// 0 when off.
pub open spec fn seconds_of(stored: Option<u32>) -> u32 {
    match stored {
        Some(ms) => ms / 1000,
        None => 0,
    }
}

/// The value stored for a screen-off time in seconds: off for 0, else
/// milliseconds, saturating at the largest value the setting holds.
pub open spec fn stored_value(seconds: u32) -> Option<u32> {
    if seconds == 0 {
        None
    } else if seconds * 1000 > u32::MAX {
        Some(u32::MAX)
    } else {
        Some((seconds * 1000) as u32)
    }
}

/// Seconds of a stored screen-off time.
pub fn screen_off_seconds(stored: Option<u32>) -> (s: u32)
    ensures
        s == seconds_of(stored),
{
    match stored {
        Some(ms) => ms / 1000,
        None => 0,
    }
}

/// The value stored for a screen-off time in seconds.
pub fn screen_off_value(seconds: u32) -> (v: Option<u32>)
    ensures
        v == stored_value(seconds),
{
    if seconds == 0 {
        None
    } else {
        match seconds.checked_mul(1000) {
            Some(ms) => Some(ms),
            None => Some(u32::MAX),
        }
    }
}

/// Reading back a written screen-off time gives the seconds written, for
/// every time whose milliseconds the setting can hold.
pub proof fn lemma_read_written(seconds: u32)
    requires
        seconds * 1000 <= u32::MAX,
    ensures
        seconds_of(stored_value(seconds)) == seconds,
{
}

} // verus!
