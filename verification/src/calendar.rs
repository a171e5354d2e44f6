//! Points in time as a calendar and a clock show them.

use vstd::prelude::*;

verus! {

/// A date and a time of day, in no particular time zone.
#[derive(Debug, Clone, Copy, PartialEq, Eq, Structural)]
pub struct Timestamp {
    pub year: i32,
    pub month: u32,
    pub day: u32,
    pub hour: u32,
    pub minute: u32,
    pub second: u32,
    /// At least 1000 within a leap second.
    pub milli: u32,
}

/// The first year that a date can have.
pub const FIRST_YEAR: i32 = -262_143;

/// The last year that a date can have.
pub const LAST_YEAR: i32 = 262_142;

/// The year has a 29th of February.
pub open spec fn is_leap_year(year: int) -> bool {
    year % 4 == 0 && (year % 100 != 0 || year % 400 == 0)
}

/// The number of days of a month.
pub open spec fn days_in_month(year: int, month: int) -> int {
    if month == 2 {
        if is_leap_year(year) {
            29
        } else {
            28
        }
    } else if month == 4 || month == 6 || month == 9 || month == 11 {
        30
    } else {
        31
    }
}

/// The number of days of the year before a month.
pub open spec fn days_before_month(year: int, month: int) -> int
    decreases month,
{
    if month <= 1 {
        0
    } else {
        days_before_month(year, month - 1) + days_in_month(year, month - 1)
    }
}

/// The date is one of the calendar.
pub open spec fn is_date(year: int, month: int, day: int) -> bool {
    &&& FIRST_YEAR <= year <= LAST_YEAR
    &&& 1 <= month <= 12
    &&& 1 <= day <= days_in_month(year, month)
}

/// The number of a day, with 1 for the first of January of the year 1.
pub open spec fn day_number(year: int, month: int, day: int) -> int {
    365 * (year - 1) + (year - 1) / 4 - (year - 1) / 100 + (year - 1) / 400 + days_before_month(
        year,
        month,
    ) + day
}

/// The time is one of a day. Milliseconds past 999 are those of a leap second,
/// which only the last second of a minute can have.
pub open spec fn is_clock_time(hour: int, minute: int, second: int, milli: int) -> bool {
    &&& 0 <= hour < 24
    &&& 0 <= minute < 60
    &&& 0 <= second < 60
    &&& 0 <= milli < 1000 || (second == 59 && 1000 <= milli < 2000)
}

/// The date and the time exist.
pub open spec fn is_time(t: Timestamp) -> bool {
    &&& is_date(t.year as int, t.month as int, t.day as int)
    &&& is_clock_time(t.hour as int, t.minute as int, t.second as int, t.milli as int)
}

/// The number of the day.
pub open spec fn day_of(t: Timestamp) -> int {
    day_number(t.year as int, t.month as int, t.day as int)
}

/// The number of whole seconds since midnight.
pub open spec fn second_of_day(t: Timestamp) -> int {
    t.hour * 3600 + t.minute * 60 + t.second
}

/// The leap seconds that lie between two times of day: one where the earlier
/// of them is within a leap second, none otherwise.
pub open spec fn leap_seconds(later: Timestamp, earlier: Timestamp) -> int {
    if second_of_day(later) > second_of_day(earlier) && earlier.milli >= 1000 {
        1
    } else if second_of_day(later) < second_of_day(earlier) && later.milli >= 1000 {
        -1
    } else {
        0
    }
}

/// The milliseconds from one point in time to another.
pub open spec fn millis_apart(later: Timestamp, earlier: Timestamp) -> int {
    (day_of(later) - day_of(earlier)) * 86_400_000 + (second_of_day(later) - second_of_day(earlier)
        + leap_seconds(later, earlier)) * 1000 + (later.milli - earlier.milli)
}

/// Nothing lies between a point in time and itself, and the way back is as
/// long as the way there.
pub proof fn law_way_back(a: Timestamp, b: Timestamp)
    ensures
        millis_apart(a, a) == 0,
        millis_apart(a, b) == -millis_apart(b, a),
{
}

} // verus!
