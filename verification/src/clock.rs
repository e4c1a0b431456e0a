//! Calendar time in UTC, read off `chrono`.

use crate::text::zero_padded;
use chrono::{Datelike, TimeZone, Timelike, Utc};
use vstd::prelude::*;

verus! {

/// The first second since the epoch that `chrono` can place in its calendar:
/// midnight on 1 January of the year -262143.
pub const EARLIEST_SECOND: i64 = -8_334_601_228_800;

/// The last such second: the end of 31 December of the year 262142.
pub const LATEST_SECOND: i64 = 8_210_266_876_799;

/// Seconds in a day.
pub const SECONDS_PER_DAY: i64 = 86_400;

/// An hour and a minute of the day.
#[derive(Clone, Copy, Debug, PartialEq, Eq, Structural)]
pub struct TimeOfDay {
    pub hour: u8,
    pub minute: u8,
}

/// A day of the month with a time of day.
#[derive(Clone, Copy, Debug, PartialEq, Eq, Structural)]
pub struct ReportTime {
    pub day: u8,
    pub hour: u8,
    pub minute: u8,
}

impl TimeOfDay {
    /// The hour and minute exist on a clock.
    pub open spec fn well_formed(self) -> bool {
        self.hour <= 23 && self.minute <= 59
    }

    /// Hour and minute in two digits each, then `Z`.
    pub open spec fn text(self) -> Seq<char> {
        zero_padded(self.hour as int, 2) + zero_padded(self.minute as int, 2) + "Z"@
    }
}

impl ReportTime {
    /// The day exists in some month and the time on a clock.
    pub open spec fn well_formed(self) -> bool {
        1 <= self.day <= 31 && self.hour <= 23 && self.minute <= 59
    }

    /// Day, hour and minute in two digits each, then `Z`.
    pub open spec fn text(self) -> Seq<char> {
        zero_padded(self.day as int, 2) + zero_padded(self.hour as int, 2) + zero_padded(
            self.minute as int,
            2,
        ) + "Z"@
    }
}

/// Whether `unix_seconds` lies in the calendar.
pub open spec fn in_calendar(unix_seconds: int) -> bool {
    EARLIEST_SECOND <= unix_seconds <= LATEST_SECOND
}

/// The seconds that have passed of the UTC day in which `unix_seconds` falls.
pub open spec fn second_of_day(unix_seconds: int) -> int {
    unix_seconds % (SECONDS_PER_DAY as int)
}

/// The UTC time of day at `unix_seconds`.
pub open spec fn time_of_day_at(unix_seconds: int) -> TimeOfDay {
    TimeOfDay {
        hour: (second_of_day(unix_seconds) / 3600) as u8,
        minute: ((second_of_day(unix_seconds) / 60) % 60) as u8,
    }
}

/// The time of day is on the clock whatever the second.
pub proof fn lemma_time_of_day_well_formed(unix_seconds: int)
    ensures
        time_of_day_at(unix_seconds).well_formed(),
{
}

/// `chrono::Utc::now`, read through `Datelike::day`, `Timelike::hour` and
/// `Timelike::minute`: the present day of the month, hour and minute in UTC.
/// Assumed of them: the day is from 1 to 31, the hour from 0 to 23, the
/// minute from 0 to 59. `Utc::now` panics where the system clock reads a
/// moment before 1970.
#[verifier::external_body]
pub(crate) fn utc_now() -> (now: ReportTime)
    ensures
        now.well_formed(),
{
    let moment = Utc::now();
    ReportTime { day: moment.day() as u8, hour: moment.hour() as u8, minute: moment.minute() as u8 }
}

/// `chrono::TimeZone::timestamp_opt` on `Utc`, read through `Timelike::hour`
/// and `Timelike::minute`. Assumed of them: a count of seconds since the
/// epoch is accepted exactly when it falls in the years -262143 to 262142,
/// and the hour and minute are those of the second of the day, days having
/// 86 400 seconds each.
#[verifier::external_body]
pub(crate) fn utc_time_of_day(unix_seconds: i64) -> (time: Option<TimeOfDay>)
    ensures
        time is Some <==> in_calendar(unix_seconds as int),
        time is Some ==> time == Some(time_of_day_at(unix_seconds as int)),
{
    match Utc.timestamp_opt(unix_seconds, 0).single() {
        Some(moment) => Some(TimeOfDay { hour: moment.hour() as u8, minute: moment.minute() as u8 }),
        None => None,
    }
}

} // verus!
