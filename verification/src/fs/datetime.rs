//! Device timestamps.
use crate::clock::{at_unix_second, unix_time};
use std::time::SystemTime;
use vstd::prelude::*;

verus! {

/// A calendar date and time as reported by a device (no timezone).
#[derive(Debug, Clone, Copy, PartialEq, Eq, Structural)]
pub struct DateTime {
    pub year: u16,
    pub month: u8,
    pub day: u8,
    pub hour: u8,
    pub minute: u8,
    pub second: u8,
}

/// The day number of a date, counted from 1 January 1970. Years begin in March here, so that the
/// leap day comes last; what that counts is stated by [`days_are_counted_by_the_calendar`].
pub open spec fn civil_day(year: int, month: int, day: int) -> int {
    let y = if month <= 2 {
        year - 1
    } else {
        year
    };
    let m = if month <= 2 {
        month + 9
    } else {
        month - 3
    };
    365 * y + y / 4 - y / 100 + y / 400 + (153 * m + 2) / 5 + day - 1 - 719468
}

/// Whether a year has a leap day.
pub open spec fn is_leap(year: int) -> bool {
    year % 4 == 0 && (year % 100 != 0 || year % 400 == 0)
}

pub open spec fn days_in_month(year: int, month: int) -> int {
    if month == 2 {
        if is_leap(year) {
            29
        } else {
            28
        }
    } else if month == 4 || month == 6 || month == 9 || month == 11 {
        30
    } else {
        31
    }
}

impl DateTime {
    /// Seconds since the Unix epoch, negative before it.
    pub open spec fn epoch_seconds(self) -> int {
        civil_day(self.year as int, self.month as int, self.day as int) * 86400 + self.hour * 3600
            + self.minute * 60 + self.second
    }
}

/// Days from 1 January 1970 to a date.
fn days_from_civil(year: u16, month: u8, day: u8) -> (days: i64)
    ensures
        days == civil_day(year as int, month as int, day as int),
{
    // Shifted by one era of 400 years, so that nothing is negative.
    let y: u64 = if month <= 2 {
        year as u64 + 399
    } else {
        year as u64 + 400
    };
    let era: u64 = y / 400;
    let yoe: u64 = y - era * 400;
    let m: u64 = if month <= 2 {
        month as u64 + 9
    } else {
        month as u64 - 3
    };
    let doe: u64 = yoe * 365 + yoe / 4 - yoe / 100 + (153 * m + 2) / 5 + day as u64;
    let ghost true_y = y - 400;
    assert(true_y / 4 == 100 * (era - 1) + yoe as int / 4);
    assert(true_y / 100 == 4 * (era - 1) + yoe as int / 100);
    assert(true_y / 400 == era - 1);
    (era * 146097) as i64 - 146097 + doe as i64 - 1 - 719468
}

/// When an object was modified; times before the Unix epoch count as the epoch.
pub fn mtp_datetime_to_system_time(dt: &DateTime) -> (time: SystemTime)
    ensures
        time == unix_time(
            if dt.epoch_seconds() >= 0 {
                dt.epoch_seconds()
            } else {
                0
            },
        ),
{
    let days: i64 = days_from_civil(dt.year, dt.month, dt.day);
    let secs: i64 = days * 86400 + dt.hour as i64 * 3600 + dt.minute as i64 * 60 + dt.second as i64;
    if secs >= 0 {
        at_unix_second(secs as u64)
    } else {
        at_unix_second(0)
    }
}

/// Day numbers follow the calendar: 1 January 1970 is day zero, the next day has the next number,
/// a month has its days, and December is followed by January.
pub proof fn days_are_counted_by_the_calendar(year: int, month: int, day: int)
    requires
        1 <= month <= 12,
    ensures
        civil_day(1970, 1, 1) == 0,
        civil_day(year, month, day + 1) == civil_day(year, month, day) + 1,
        month < 12 ==> civil_day(year, month + 1, 1) == civil_day(year, month, 1) + days_in_month(
            year,
            month,
        ),
        civil_day(year + 1, 1, 1) == civil_day(year, 12, 1) + days_in_month(year, 12),
        month == 2 ==> days_in_month(year, month) == if year % 400 == 0 {
            29int
        } else if year % 100 == 0 {
            28
        } else if year % 4 == 0 {
            29
        } else {
            28
        },
        month == 4 || month == 6 || month == 9 || month == 11 ==> days_in_month(year, month) == 30,
        month != 2 && month != 4 && month != 6 && month != 9 && month != 11 ==> days_in_month(
            year,
            month,
        ) == 31,
{
    let a = year - 1;
    assert(year / 4 - a / 4 == if year % 4 == 0 {
        1int
    } else {
        0
    });
    assert(year / 100 - a / 100 == if year % 100 == 0 {
        1int
    } else {
        0
    });
    assert(year / 400 - a / 400 == if year % 400 == 0 {
        1int
    } else {
        0
    });
}

/// Seconds count the time of the day within it: midnight is the day's start, each second, minute and
/// hour adds what it lasts, and the next day starts a day's length later.
pub proof fn seconds_count_the_time_of_day(dt: DateTime)
    ensures
        ({
            let midnight = DateTime { hour: 0, minute: 0, second: 0, ..dt };
            let tomorrow = DateTime { day: (dt.day + 1) as u8, ..dt };
            &&& dt.epoch_seconds() == midnight.epoch_seconds() + dt.hour * 3600 + dt.minute * 60
                + dt.second
            &&& midnight.epoch_seconds() == 86400 * civil_day(
                dt.year as int,
                dt.month as int,
                dt.day as int,
            )
            &&& dt.day < 255 ==> tomorrow.epoch_seconds() == dt.epoch_seconds() + 86400
        }),
{
    let day = civil_day(dt.year as int, dt.month as int, dt.day as int);
    let midnight = DateTime { hour: 0, minute: 0, second: 0, ..dt };
    assert(midnight.epoch_seconds() == day * 86400);
    if dt.day < 255 {
        let tomorrow = DateTime { day: (dt.day + 1) as u8, ..dt };
        assert(tomorrow.day == dt.day + 1);
        assert(civil_day(tomorrow.year as int, tomorrow.month as int, tomorrow.day as int) == day
            + 1);
        assert((day + 1) * 86400 == day * 86400 + 86400) by (nonlinear_arith);
    }
}

} // verus!
