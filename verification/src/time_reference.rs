use vstd::prelude::*;
use crate::date_time::{date_time_after, plus_millis, UtcDateTime};

verus! {

/// One moment at which both the date and time and the reading of the
/// free-running millisecond counter are known. Every later reading is
/// turned into a date and time from it.
#[derive(Clone, Copy, Debug, PartialEq, Eq, Structural)]
pub struct TimeReference {
    pub date_time: UtcDateTime,
    pub rtc_value: u64,
}

impl TimeReference {
    /// The date and time at the counter reading `counter_now`: the
    /// reference's date and time, and the milliseconds counted since. There
    /// is none where the counter reads less than at the reference, or the
    /// difference is more than a signed 64-bit number of milliseconds, or
    /// the calendar has no such moment.
    pub open spec fn now(&self, counter_now: u64) -> Option<UtcDateTime> {
        if counter_now < self.rtc_value || counter_now - self.rtc_value > i64::MAX {
            None
        } else {
            date_time_after(self.date_time, counter_now - self.rtc_value)
        }
    }

    /// The reference of a device that was just started: midnight of
    /// 1 January 1970 at the counter reading 0.
    pub open spec fn new_spec() -> TimeReference {
        TimeReference {
            date_time: UtcDateTime {
                year: 1970,
                month: 1,
                day: 1,
                hour: 0,
                minute: 0,
                second: 0,
                nanoseconds: 0,
            },
            rtc_value: 0,
        }
    }

    /// The reference of a device that was just started.
    #[verifier::when_used_as_spec(new_spec)]
    pub fn new() -> (r: Self)
        ensures
            r == Self::new_spec(),
    {
        TimeReference {
            date_time: UtcDateTime {
                year: 1970,
                month: 1,
                day: 1,
                hour: 0,
                minute: 0,
                second: 0,
                nanoseconds: 0,
            },
            rtc_value: 0,
        }
    }
}

/// Makes `new_reference_date_time` at the counter reading `counter_now` the
/// reference, whatever the reference was before.
pub fn set_time_reference(
    time_reference: &mut TimeReference,
    counter_now: u64,
    new_reference_date_time: UtcDateTime,
)
    ensures
        *final(time_reference) == (TimeReference {
            date_time: new_reference_date_time,
            rtc_value: counter_now,
        }),
{
    time_reference.date_time = new_reference_date_time;
    time_reference.rtc_value = counter_now;
}

/// The date and time at the counter reading `counter_now`.
pub fn get_date_time(time_reference: &TimeReference, counter_now: u64) -> (r: Option<UtcDateTime>)
    ensures
        r == time_reference.now(counter_now),
        r matches Some(t) ==> t.hour < 24,
{
    if counter_now < time_reference.rtc_value {
        return None;
    }
    let diff_ms = counter_now - time_reference.rtc_value;
    if diff_ms > i64::MAX as u64 {
        return None;
    }
    plus_millis(&time_reference.date_time, diff_ms as i64)
}

/// Time projection: once `date_time` at the reading `counter` is the
/// reference, the date and time at a reading `elapsed` milliseconds later
/// is what the calendar gives `elapsed` milliseconds after `date_time`.
pub proof fn lemma_time_projection(date_time: UtcDateTime, counter: u64, elapsed: u64)
    requires
        counter + elapsed <= u64::MAX,
        elapsed <= i64::MAX,
    ensures
        (TimeReference { date_time, rtc_value: counter }).now((counter + elapsed) as u64)
            == date_time_after(date_time, elapsed as int),
{
}

} // verus!
