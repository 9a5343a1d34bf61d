//! Readings of the system clock: seconds since the Unix epoch and RFC 3339
//! time stamps.

use vstd::prelude::*;
use crate::store::{rfc3339_of_timestamp, rfc3339_text, system_clock};

verus! {

/// Seconds since the Unix epoch of a clock reading; a clock before the
/// epoch reads as zero.
pub open spec fn seconds_since_epoch_spec(reading: (bool, u64, u32)) -> u64 {
    if reading.0 {
        0
    } else {
        reading.1
    }
}

/// Seconds since the Unix epoch of a clock reading; a clock before the
/// epoch reads as zero.
pub fn seconds_since_epoch(reading: (bool, u64, u32)) -> (r: u64)
    ensures
        r == seconds_since_epoch_spec(reading),
{
    if reading.0 {
        0
    } else {
        reading.1
    }
}

/// Seconds since the Unix epoch, now; a clock set before the epoch reads as
/// zero.
pub fn unix_now_secs() -> (r: u64) {
    seconds_since_epoch(system_clock())
}

/// The signed Unix timestamp (seconds, and nanoseconds within the second)
/// of a clock reading, as chrono counts it: a time before the epoch is a
/// negative second plus a forward fraction. `None` where the seconds do not
/// fit in an `i64`.
pub open spec fn signed_timestamp_spec(reading: (bool, u64, u32)) -> Option<(i64, u32)> {
    let (before, secs, nanos) = reading;
    if secs > i64::MAX {
        None
    } else if !before {
        Some((secs as i64, nanos))
    } else if nanos == 0 {
        Some(((0 - secs) as i64, 0u32))
    } else {
        Some(((0 - secs - 1) as i64, (1_000_000_000 - nanos) as u32))
    }
}

/// The signed Unix timestamp of a clock reading.
pub fn signed_timestamp(reading: (bool, u64, u32)) -> (r: Option<(i64, u32)>)
    requires
        reading.2 < 1_000_000_000,
    ensures
        r == signed_timestamp_spec(reading),
{
    let (before, secs, nanos) = reading;
    if secs > i64::MAX as u64 {
        None
    } else if !before {
        Some((secs as i64, nanos))
    } else if nanos == 0 {
        Some((0 - (secs as i64), 0u32))
    } else {
        Some((0 - (secs as i64) - 1, 1_000_000_000 - nanos))
    }
}

/// The time stamp written when the clock cannot be written as a date.
pub open spec fn epoch_text() -> Seq<char> {
    "1970-01-01T00:00:00+00:00"@
}

/// RFC 3339 text of a clock reading; the epoch's text where chrono cannot
/// represent the reading.
pub open spec fn reading_text_spec(reading: (bool, u64, u32)) -> Seq<char> {
    match signed_timestamp_spec(reading) {
        Some((s, n)) => match rfc3339_text(s, n) {
            Some(t) => t,
            None => epoch_text(),
        },
        None => epoch_text(),
    }
}

/// RFC 3339 text of a clock reading.
pub fn reading_text(reading: (bool, u64, u32)) -> (r: String)
    requires
        reading.2 < 1_000_000_000,
    ensures
        r@ == reading_text_spec(reading),
{
    match signed_timestamp(reading) {
        Some((s, n)) => match rfc3339_of_timestamp(s, n) {
            Some(t) => t,
            None => String::from_str("1970-01-01T00:00:00+00:00"),
        },
        None => String::from_str("1970-01-01T00:00:00+00:00"),
    }
}

/// The current UTC time in RFC 3339 form.
pub fn now_rfc3339() -> (r: String)
    ensures
        exists|reading: (bool, u64, u32)| r@ == reading_text_spec(reading),
{
    let reading = system_clock();
    reading_text(reading)
}

} // verus!
