//! Calendar dates of the proleptic Gregorian calendar, and the number of
//! seconds from the start of 1970 to the midnight (UTC) that begins a date.

use vstd::prelude::*;

verus! {

/// Seconds in a day.
pub const SECONDS_PER_DAY: i64 = 86_400;

/// Whether year `y` has a 29th of February.
pub open spec fn is_leap_year(y: int) -> bool {
    y % 4 == 0 && (y % 100 != 0 || y % 400 == 0)
}

/// The number of days of year `y`.
pub open spec fn days_in_year(y: int) -> int {
    if is_leap_year(y) {
        366
    } else {
        365
    }
}

/// The number of days of month `m` (1 to 12) of year `y`.
pub open spec fn days_in_month(y: int, m: int) -> int {
    if m == 2 {
        if is_leap_year(y) {
            29
        } else {
            28
        }
    } else if m == 4 || m == 6 || m == 9 || m == 11 {
        30
    } else {
        31
    }
}

/// Whether year `y`, month `m` and day `d` name a day of the calendar.
pub open spec fn is_calendar_date(y: int, m: int, d: int) -> bool {
    1 <= m <= 12 && 1 <= d <= days_in_month(y, m)
}

/// The number of days from the first day of 1970 to the first day of year
/// `y`; negative for a year before 1970.
pub open spec fn days_before_year(y: int) -> int
    decreases
            if y >= 1970 {
                y - 1970
            } else {
                1970 - y
            },
{
    if y == 1970 {
        0
    } else if y > 1970 {
        days_before_year(y - 1) + days_in_year(y - 1)
    } else {
        days_before_year(y + 1) - days_in_year(y)
    }
}

/// The number of days of year `y` that lie before its month `m`.
pub open spec fn days_before_month(y: int, m: int) -> int
    decreases m,
{
    if m <= 1 {
        0
    } else {
        days_before_month(y, m - 1) + days_in_month(y, m - 1)
    }
}

/// The number of days from the first day of 1970 to the given day.
pub open spec fn days_since_epoch(y: int, m: int, d: int) -> int {
    days_before_year(y) + days_before_month(y, m) + (d - 1)
}

/// The number of seconds from the start of 1970 to the midnight that begins
/// the given day.
pub open spec fn midnight_seconds(y: int, m: int, d: int) -> int {
    SECONDS_PER_DAY * days_since_epoch(y, m, d)
}

/// A day of the calendar.
#[derive(Debug, Clone, Copy, PartialEq, Eq, Structural)]
pub struct CalendarDate {
    pub year: i32,
    pub month: u32,
    pub day: u32,
}

impl CalendarDate {
    /// The fields name a day of the calendar.
    pub open spec fn wf(self) -> bool {
        is_calendar_date(self.year as int, self.month as int, self.day as int)
    }

    /// The date with the given fields, where they name a day of the calendar.
    pub fn new(year: i32, month: u32, day: u32) -> (date: Option<CalendarDate>)
        ensures
            date == if is_calendar_date(year as int, month as int, day as int) {
                Some(CalendarDate { year, month, day })
            } else {
                None::<CalendarDate>
            },
    {
        if 1 <= month && month <= 12 && 1 <= day && day <= month_length(year, month) {
            Some(CalendarDate { year, month, day })
        } else {
            None
        }
    }

    /// Seconds from the start of 1970 to the midnight that begins this date.
    pub fn midnight_timestamp(&self) -> (seconds: i64)
        requires
            self.wf(),
        ensures
            seconds == midnight_seconds(self.year as int, self.month as int, self.day as int),
            seconds % SECONDS_PER_DAY == 0,
    {
        let days: i64 = year_start(self.year) + month_start(self.year, self.month) + (
        self.day as i64 - 1);
        assert(-800_000_000_000 < days < 800_000_000_000);
        assert((SECONDS_PER_DAY * days) % (SECONDS_PER_DAY as int) == 0) by (nonlinear_arith);
        SECONDS_PER_DAY * days
    }
}

/// A multiple of 400 that makes every `i32` year positive when added to it.
const YEAR_SHIFT: i64 = 2_147_484_000;

/// The number of leap years among the `n` years that begin with the year
/// `-YEAR_SHIFT + 1`.
spec fn leap_years_to(n: int) -> int {
    n / 4 - n / 100 + n / 400
}

/// Year by year, `leap_years_to` grows by one exactly at a leap year.
proof fn lemma_leap_step(y: int)
    requires
        y + YEAR_SHIFT >= 1,
    ensures
        leap_years_to(y + YEAR_SHIFT) - leap_years_to(y + YEAR_SHIFT - 1) == if is_leap_year(y) {
            1int
        } else {
            0int
        },
{
    let n = y + YEAR_SHIFT;
    assert(YEAR_SHIFT == 400 * 5_368_710);
    assert(n % 4 == y % 4 && n % 100 == y % 100 && n % 400 == y % 400);
}

/// The days before a year, in closed form.
proof fn lemma_days_before_year(y: int)
    requires
        y + YEAR_SHIFT >= 1,
    ensures
        days_before_year(y) == 365 * (y - 1970) + leap_years_to(y - 1 + YEAR_SHIFT)
            - leap_years_to(1969 + YEAR_SHIFT),
    decreases
            if y >= 1970 {
                y - 1970
            } else {
                1970 - y
            },
{
    if y == 1970 {
    } else if y > 1970 {
        lemma_days_before_year(y - 1);
        lemma_leap_step(y - 1);
    } else {
        lemma_days_before_year(y + 1);
        lemma_leap_step(y);
    }
}

/// Whether `year` has a 29th of February.
fn leap_year(year: i32) -> (b: bool)
    ensures
        b == is_leap_year(year as int),
{
    let n: i64 = year as i64 + YEAR_SHIFT;
    assert(YEAR_SHIFT == 400 * 5_368_710);
    assert(n % 4 == (year as int) % 4 && n % 100 == (year as int) % 100 && n % 400 == (
    year as int) % 400);
    n % 4 == 0 && (n % 100 != 0 || n % 400 == 0)
}

/// The number of days of `month` of `year`.
fn month_length(year: i32, month: u32) -> (days: u32)
    ensures
        days == days_in_month(year as int, month as int),
{
    if month == 2 {
        if leap_year(year) {
            29
        } else {
            28
        }
    } else if month == 4 || month == 6 || month == 9 || month == 11 {
        30
    } else {
        31
    }
}

/// Days from the first day of 1970 to the first day of `year`.
fn year_start(year: i32) -> (days: i64)
    ensures
        days == days_before_year(year as int),
        -785_000_000_000 < days < 785_000_000_000,
{
    proof {
        lemma_days_before_year(year as int);
    }
    let n: i64 = year as i64 - 1 + YEAR_SHIFT;
    let epoch: i64 = 1969 + YEAR_SHIFT;
    let leaps: i64 = (n / 4 - n / 100 + n / 400) - (epoch / 4 - epoch / 100 + epoch / 400);
    365 * (year as i64 - 1970) + leaps
}

/// Days of `year` that lie before its `month`.
fn month_start(year: i32, month: u32) -> (days: i64)
    requires
        1 <= month <= 12,
    ensures
        days == days_before_month(year as int, month as int),
        0 <= days <= 335,
{
    proof {
        reveal_with_fuel(days_before_month, 13);
    }
    let common: i64 = if month == 1 {
        0
    } else if month == 2 {
        31
    } else if month == 3 {
        59
    } else if month == 4 {
        90
    } else if month == 5 {
        120
    } else if month == 6 {
        151
    } else if month == 7 {
        181
    } else if month == 8 {
        212
    } else if month == 9 {
        243
    } else if month == 10 {
        273
    } else if month == 11 {
        304
    } else {
        334
    };
    if month > 2 && leap_year(year) {
        common + 1
    } else {
        common
    }
}

} // verus!
