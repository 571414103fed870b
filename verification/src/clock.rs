//! Instants, the clock that gives the current one, and the whole hours
//! between two of them.

use chrono::{DateTime, Utc};
use vstd::prelude::*;

verus! {

/// The number of nanoseconds in a second.
pub const NANOS_PER_SECOND: u32 = 1_000_000_000;

/// The number of seconds in an hour.
pub const SECONDS_PER_HOUR: i64 = 3_600;

/// The second at which the year -262143, the first that an instant can lie
/// in, begins.
pub const MIN_TIMESTAMP_SECONDS: i64 = -8_334_601_228_800;

/// The last second of the year 262142, the last that an instant can lie in.
pub const MAX_TIMESTAMP_SECONDS: i64 = 8_210_266_876_799;

/// An instant in UTC: the whole seconds since 1970-01-01 00:00:00, leap
/// seconds not counted, and the nanoseconds into that second.
#[derive(Debug, Clone, Copy, PartialEq, Eq, Structural)]
pub struct Timestamp {
    pub secs: i64,
    pub nanos: u32,
}

impl Timestamp {
    /// The instant lies in the years that the calendar covers, and its
    /// nanoseconds stay below a second.
    pub open spec fn wf(self) -> bool {
        &&& MIN_TIMESTAMP_SECONDS <= self.secs <= MAX_TIMESTAMP_SECONDS
        &&& self.nanos < NANOS_PER_SECOND
    }

    /// Whether the instant is well formed.
    pub fn is_valid(&self) -> (valid: bool)
        ensures
            valid == self.wf(),
    {
        MIN_TIMESTAMP_SECONDS <= self.secs && self.secs <= MAX_TIMESTAMP_SECONDS && self.nanos
            < NANOS_PER_SECOND
    }
}

/// The quotient of `dividend` by a positive `divisor`, rounded towards zero.
pub open spec fn quotient_towards_zero(dividend: int, divisor: int) -> int {
    if dividend >= 0 {
        dividend / divisor
    } else {
        -((-dividend) / divisor)
    }
}

/// The nanoseconds from `entry` to `exit`; negative where `exit` is the earlier.
pub open spec fn elapsed_nanos(entry: Timestamp, exit: Timestamp) -> int {
    (exit.secs - entry.secs) * NANOS_PER_SECOND + (exit.nanos - entry.nanos)
}

/// The whole seconds from `entry` to `exit`: a part of a second is dropped.
pub open spec fn whole_seconds(entry: Timestamp, exit: Timestamp) -> int {
    quotient_towards_zero(elapsed_nanos(entry, exit), NANOS_PER_SECOND as int)
}

/// The whole hours from `entry` to `exit`: a part of an hour is dropped.
pub open spec fn whole_hours(entry: Timestamp, exit: Timestamp) -> int {
    quotient_towards_zero(whole_seconds(entry, exit), SECONDS_PER_HOUR as int)
}

/// The current instant, read from chrono's `Utc::now` through
/// `DateTime::timestamp` and `DateTime::timestamp_subsec_nanos`.
///
/// Trusted: `Utc::now` builds its result from the system clock's seconds and
/// nanoseconds since the Unix epoch, so the nanoseconds stay below a second,
/// and every `DateTime<Utc>` lies between `DateTime::<Utc>::MIN_UTC` and
/// `DateTime::<Utc>::MAX_UTC`, whose seconds are the two bounds above.
/// Nothing is claimed of which instant it is.
#[verifier::external_body]
pub(crate) fn current_time() -> (now: Timestamp)
    ensures
        now.wf(),
{
    let now = Utc::now();
    Timestamp { secs: now.timestamp(), nanos: now.timestamp_subsec_nanos() }
}

/// The whole hours from `entry` to `exit`, as chrono's
/// `DateTime::signed_duration_since` and `TimeDelta::num_hours` give them
/// for the two instants that `DateTime::from_timestamp` makes.
///
/// Trusted: `from_timestamp` accepts every well-formed instant;
/// `signed_duration_since` is the exact difference of two instants whose
/// nanoseconds stay below a second; `num_hours` is that difference's whole
/// seconds, a part of a second dropped, divided by 3600 and rounded
/// towards zero.
#[verifier::external_body]
pub(crate) fn whole_hours_between(entry: Timestamp, exit: Timestamp) -> (hours: i64)
    requires
        entry.wf(),
        exit.wf(),
    ensures
        hours == whole_hours(entry, exit),
{
    let start = DateTime::from_timestamp(entry.secs, entry.nanos).unwrap();
    let end = DateTime::from_timestamp(exit.secs, exit.nanos).unwrap();
    end.signed_duration_since(start).num_hours()
}

} // verus!
