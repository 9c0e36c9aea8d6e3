//! Calendar arithmetic on Unix timestamps, carried out by `chrono`.

use chrono::{TimeDelta, TimeZone, Utc};
use vstd::prelude::*;

verus! {

/// The earliest second that `chrono` can hold as a UTC date and time:
/// midnight on 1 January of the year -262143.
pub const MIN_TIMESTAMP: i64 = -8_334_601_228_800;

/// The latest second that `chrono` can hold as a UTC date and time:
/// the last second of 31 December of the year 262142.
pub const MAX_TIMESTAMP: i64 = 8_210_266_876_799;

/// Whether `seconds` since the Unix epoch name a moment that `chrono` can hold.
pub open spec fn representable(seconds: int) -> bool {
    MIN_TIMESTAMP <= seconds <= MAX_TIMESTAMP
}

/// What moving the moment `start` by `offset` seconds gives: the sum, where
/// both the start and the sum are moments that `chrono` can hold.
pub open spec fn shifted(start: i64, offset: i64) -> Option<i64> {
    if representable(start as int) && representable(start + offset) {
        Some((start + offset) as i64)
    } else {
        None
    }
}

/// Moves a Unix timestamp by a number of seconds on `chrono`'s UTC calendar.
///
/// Trusted: the body turns `start` into a `DateTime<Utc>` with
/// `TimeZone::timestamp_opt`, turns `offset` into a `TimeDelta` with
/// `TimeDelta::try_seconds`, adds them with `DateTime::checked_add_signed` and
/// reads the sum back with `DateTime::timestamp`. The contract claims that
/// this is plain addition of seconds (`chrono` counts no leap seconds), that
/// it succeeds exactly when `start` and the sum lie between `MIN_TIMESTAMP`
/// and `MAX_TIMESTAMP`, the first and last second of `chrono`'s calendar, and
/// that it never panics. An offset beyond what a `TimeDelta` holds (about
/// 9.2e15 seconds) cannot join two such moments, so it needs no clause.
#[verifier::external_body]
pub(crate) fn shift_timestamp(start: i64, offset: i64) -> (moved: Option<i64>)
    ensures
        moved == shifted(start, offset),
{
    let base = Utc.timestamp_opt(start, 0).single()?;
    let delta = TimeDelta::try_seconds(offset)?;
    let sum = base.checked_add_signed(delta)?;
    Some(sum.timestamp())
}

} // verus!
