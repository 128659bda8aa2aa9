//! Conversion of platform file times.
use vstd::prelude::*;

verus! {

/// Seconds from 1601-01-01 to 1970-01-01.
pub const WINDOWS_TO_UNIX_EPOCH_SECS: u64 = 11644473600;

/// Ticks of 100 nanoseconds in one second.
pub const TICKS_PER_SEC: u64 = 10000000;

/// The count of ticks that the two halves of a file time stand for.
pub open spec fn filetime_ticks(high: u32, low: u32) -> int {
    high * 0x1_0000_0000 + low
}

/// The Unix time in seconds of a file time, and zero for a file time
/// before 1970.
pub open spec fn unix_time_of(high: u32, low: u32) -> int {
    let seconds = filetime_ticks(high, low) / (TICKS_PER_SEC as int);
    if seconds < WINDOWS_TO_UNIX_EPOCH_SECS {
        0
    } else {
        seconds - WINDOWS_TO_UNIX_EPOCH_SECS
    }
}

/// Converts a file time, given as its high and low half, to Unix time in
/// seconds.
pub fn filetime_to_unix_time(high: u32, low: u32) -> (secs: u64)
    ensures
        secs == unix_time_of(high, low),
{
    let ticks: u64 = (high as u64) * 0x1_0000_0000 + (low as u64);
    let seconds: u64 = ticks / TICKS_PER_SEC;
    if seconds < WINDOWS_TO_UNIX_EPOCH_SECS {
        0
    } else {
        seconds - WINDOWS_TO_UNIX_EPOCH_SECS
    }
}

} // verus!
