//! The wall clock.

use vstd::prelude::*;
use chrono::Timelike;

verus! {

/// The hour and the minute of the local time, read from the system clock by
/// `chrono::offset::Local::now` and taken from it by `Timelike::hour` and
/// `Timelike::minute`.
///
/// Believed, not proved: the hour is below 24 and the minute below 60, as
/// `chrono` documents of the two accessors. Which time comes back is open:
/// two calls may differ.
///
/// No argument decides whether the call returns. `chrono` stops the program
/// if the system clock stands before 1970 or beyond the years it can count,
/// if the time zone data of the machine has no local time type for the
/// moment, or if the zone's offset from UTC is one that it cannot hold.
#[verifier::external_body]
pub(crate) fn local_hour_and_minute() -> (now: (u16, u16))
    ensures
        now.0 < 24,
        now.1 < 60,
{
    let now = chrono::offset::Local::now();
    (now.hour() as u16, now.minute() as u16)
}

} // verus!
