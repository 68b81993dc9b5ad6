//! Instants of UTC, and the clock that gives them.
use chrono::DateTime;
use chrono::Timelike;
use chrono::Utc;
use vstd::prelude::*;

use crate::text::two_digits;

verus! {

/// The last second that the calendar has: the end of the year 262142.
pub const LAST_SECOND: i64 = 8_210_266_876_799;

/// The nanoseconds of a second.
pub const NANOS_PER_SECOND: u32 = 1_000_000_000;

/// An instant: whole seconds since the first of January 1970, 0:00:00 UTC, and nanoseconds
/// after that second.
#[derive(Clone, Copy, PartialEq, Eq, Structural, Debug)]
pub struct UtcInstant {
    pub secs: i64,
    pub nanos: u32,
}

/// A span of time in nanoseconds. It is negative where it runs backwards.
#[derive(Clone, Copy, PartialEq, Eq, Structural, Debug)]
pub struct TimeSpan {
    pub nanos: i128,
}

/// The time of day of a second as hours, minutes and seconds of two digits each.
pub open spec fn time_of_day_text(secs: int) -> Seq<char> {
    two_digits((secs % 86400 / 3600) as nat) + ":"@ + two_digits((secs % 3600 / 60) as nat) + ":"@
        + two_digits((secs % 60) as nat)
}

impl UtcInstant {
    /// An instant that the clock can give: not before 1970, and within the calendar.
    pub open spec fn valid(self) -> bool {
        0 <= self.secs <= LAST_SECOND && self.nanos < NANOS_PER_SECOND
    }

    /// Nanoseconds since the first of January 1970.
    pub open spec fn total_nanos(self) -> int {
        self.secs * 1_000_000_000 + self.nanos
    }

    /// Whether the clock can give this instant.
    pub fn is_valid(&self) -> (r: bool)
        ensures
            r == self.valid(),
    {
        0 <= self.secs && self.secs <= LAST_SECOND && self.nanos < NANOS_PER_SECOND
    }

    /// The time of day, as [`time_of_day_text`] says.
    pub fn time_of_day(&self) -> (r: String)
        requires
            self.valid(),
        ensures
            r@ == time_of_day_text(self.secs as int),
    {
        format_time_of_day(*self)
    }
}

/// Calls `chrono::Utc::now`, which reads the machine's clock. It gives no instant before 1970
/// (it panics where the clock stands there), none outside chrono's calendar, and no leap second.
#[verifier::external_body]
pub(crate) fn utc_now() -> (r: UtcInstant)
    ensures
        r.valid(),
{
    let now = Utc::now();
    UtcInstant { secs: now.timestamp(), nanos: now.timestamp_subsec_nanos() }
}

/// Calls `chrono::Timelike::minute` on the instant as a `DateTime<Utc>`: the minute of the hour.
#[verifier::external_body]
pub(crate) fn minute_of(at: UtcInstant) -> (r: u32)
    requires
        at.valid(),
    ensures
        r == at.secs % 3600 / 60,
{
    DateTime::from_timestamp(at.secs, at.nanos).unwrap().minute()
}

/// Calls `chrono::Timelike::second` on the instant as a `DateTime<Utc>`: the second of the
/// minute.
#[verifier::external_body]
pub(crate) fn second_of(at: UtcInstant) -> (r: u32)
    requires
        at.valid(),
    ensures
        r == at.secs % 60,
{
    DateTime::from_timestamp(at.secs, at.nanos).unwrap().second()
}

/// Calls `chrono::DateTime::format` with hours, minutes and seconds: each is written in two
/// digits, with colons between.
#[verifier::external_body]
fn format_time_of_day(at: UtcInstant) -> (r: String)
    requires
        at.valid(),
    ensures
        r@ == time_of_day_text(at.secs as int),
{
    DateTime::from_timestamp(at.secs, at.nanos).unwrap().format("%H:%M:%S").to_string()
}

} // verus!
