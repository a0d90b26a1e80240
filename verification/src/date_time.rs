use vstd::prelude::*;
use chrono::{Datelike, TimeDelta, TimeZone, Timelike, Utc};

verus! {

/// A calendar date and time of day in UTC, field by field.
///
/// Any combination of field values can be held; whether it names a moment
/// that exists is decided where the value is used.
#[derive(Clone, Copy, Debug, PartialEq, Eq, Structural)]
pub struct UtcDateTime {
    pub year: i32,
    pub month: u32,
    pub day: u32,
    pub hour: u32,
    pub minute: u32,
    pub second: u32,
    pub nanoseconds: u32,
}

/// The date and time that the calendar gives `millis` milliseconds after
/// the second that `start` names; `None` where `start` names no second of
/// the calendar, or the sum lies outside the calendar's range.
pub uninterp spec fn date_time_after(start: UtcDateTime, millis: int) -> Option<UtcDateTime>;

/// chrono's calendar: `TimeZone::with_ymd_and_hms` on `Utc` makes the moment
/// of `start` to the second, `DateTime::checked_add_signed` adds
/// `TimeDelta::try_milliseconds(millis)`, and the sum's fields are read out.
/// Whatever comes out, its hour is one of the 24 of a day.
#[verifier::external_body]
pub(crate) fn plus_millis(start: &UtcDateTime, millis: i64) -> (r: Option<UtcDateTime>)
    ensures
        r == date_time_after(*start, millis as int),
        match r {
            Some(t) => t.hour < 24,
            None => true,
        },
{
    let base = Utc
        .with_ymd_and_hms(start.year, start.month, start.day, start.hour, start.minute, start.second)
        .single()?;
    let t = base.checked_add_signed(TimeDelta::try_milliseconds(millis)?)?;
    Some(UtcDateTime {
        year: t.year(), month: t.month(), day: t.day(),
        hour: t.hour(), minute: t.minute(), second: t.second(),
        nanoseconds: t.nanosecond(),
    })
}

} // verus!
