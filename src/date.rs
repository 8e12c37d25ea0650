use vstd::prelude::*;

use chrono::Datelike;

verus! {

/// The earliest year of the proleptic Gregorian calendar that dates can hold.
pub const MIN_YEAR: i32 = -262143;

/// The latest year of the proleptic Gregorian calendar that dates can hold.
pub const MAX_YEAR: i32 = 262142;

/// The highest day of month that `add_months` keeps; later days step down to it.
pub const CLAMP_DAY: u32 = 28;

/// A calendar date (day granularity).
#[derive(Clone, Copy, Debug, PartialEq, Eq, Structural)]
pub struct Date {
    pub year: i32,
    pub month: u32,
    pub day: u32,
}

pub open spec fn is_leap_year(year: int) -> bool {
    (year % 4 == 0 && year % 100 != 0) || year % 400 == 0
}

pub open spec fn days_in_month(year: int, month: int) -> int {
    if month == 2 {
        if is_leap_year(year) { 29 } else { 28 }
    } else if month == 4 || month == 6 || month == 9 || month == 11 {
        30
    } else {
        31
    }
}

/// A year, month and day that name an existing date in the supported range.
pub open spec fn valid_ymd(year: int, month: int, day: int) -> bool {
    &&& MIN_YEAR <= year <= MAX_YEAR
    &&& 1 <= month <= 12
    &&& 1 <= day <= days_in_month(year, month)
}

/// Result of parsing text in the `YYYY-MM-DD` shape, as year, month and day.
pub uninterp spec fn parsed_ymd(text: Seq<char>) -> Option<(int, int, int)>;

/// Days of a year that come before the first of `month`.
pub open spec fn days_before_month(year: int, month: int) -> int {
    let base: int = if month <= 1 {
        0
    } else if month == 2 {
        31
    } else if month == 3 {
        59
    } else if month == 4 {
        90
    } else if month == 5 {
        120
    } else if month == 6 {
        151
    } else if month == 7 {
        181
    } else if month == 8 {
        212
    } else if month == 9 {
        243
    } else if month == 10 {
        273
    } else if month == 11 {
        304
    } else {
        334
    };
    if month > 2 && is_leap_year(year) {
        base + 1
    } else {
        base
    }
}

/// The number of the day in the proleptic Gregorian calendar, 0001-01-01 being
/// day 1 (and 0000-12-31 day 0).
pub open spec fn day_number(year: int, month: int, day: int) -> int {
    let y = year - 1;
    365 * y + y / 4 - y / 100 + y / 400 + days_before_month(year, month) + day
}

/// A multiple of 400 years that makes every supported year minus one
/// nonnegative, so that day counts can divide unsigned numbers.
const YEAR_SHIFT: u64 = 280000;

impl Date {
    pub open spec fn wf(self) -> bool {
        valid_ymd(self.year as int, self.month as int, self.day as int)
    }

    pub open spec fn ymd(self) -> (int, int, int) {
        (self.year as int, self.month as int, self.day as int)
    }

    pub open spec fn ordinal(self) -> int {
        day_number(self.year as int, self.month as int, self.day as int)
    }
}

/// Calendar order of two dates.
pub open spec fn date_le(a: Date, b: Date) -> bool {
    a.year < b.year || (a.year == b.year && (a.month < b.month || (a.month == b.month && a.day
        <= b.day)))
}

/// Relies on chrono's `NaiveDate::from_ymd_opt`: `Some` exactly for an existing
/// calendar date whose year lies in chrono's supported range.
#[verifier::external_body]
fn checked_date(year: i32, month: u32, day: u32) -> (r: Option<Date>)
    ensures
        r is Some <==> valid_ymd(year as int, month as int, day as int),
        r matches Some(d) ==> d == (Date { year, month, day }),
{
    match chrono::NaiveDate::from_ymd_opt(year, month, day) {
        Some(d) => Some(Date { year: d.year(), month: d.month(), day: d.day() }),
        None => None,
    }
}

/// Relies on chrono's `NaiveDate::parse_from_str` with the format `%Y-%m-%d`:
/// a successful parse yields an existing date.
#[verifier::external_body]
pub(crate) fn parse_ymd(text: &str) -> (r: Option<Date>)
    ensures
        r is Some <==> parsed_ymd(text@) is Some,
        r matches Some(d) ==> parsed_ymd(text@) == Some(d.ymd()) && d.wf(),
{
    match chrono::NaiveDate::parse_from_str(text, "%Y-%m-%d") {
        Ok(d) => Some(Date { year: d.year(), month: d.month(), day: d.day() }),
        Err(_) => None,
    }
}

fn month_offset(year: i32, month: u32) -> (r: i64)
    requires
        1 <= month <= 12,
    ensures
        r as int == days_before_month(year as int, month as int),
{
    let base: i64 = if month == 1 {
        0
    } else if month == 2 {
        31
    } else if month == 3 {
        59
    } else if month == 4 {
        90
    } else if month == 5 {
        120
    } else if month == 6 {
        151
    } else if month == 7 {
        181
    } else if month == 8 {
        212
    } else if month == 9 {
        243
    } else if month == 10 {
        273
    } else if month == 11 {
        304
    } else {
        334
    };
    let leap = (year % 4 == 0 && year % 100 != 0) || year % 400 == 0;
    assert(leap == is_leap_year(year as int));
    if month > 2 && leap {
        base + 1
    } else {
        base
    }
}

/// The day number of a date: 0001-01-01 is day 1.
pub fn days_from_ce(date: &Date) -> (r: i32)
    requires
        date.wf(),
    ensures
        r as int == date.ordinal(),
{
    let shifted: u64 = (date.year as i64 - 1 + YEAR_SHIFT as i64) as u64;
    let q4: i64 = (shifted / 4) as i64 - (YEAR_SHIFT / 4) as i64;
    let q100: i64 = (shifted / 100) as i64 - (YEAR_SHIFT / 100) as i64;
    let q400: i64 = (shifted / 400) as i64 - (YEAR_SHIFT / 400) as i64;
    let ghost y: int = date.year as int - 1;
    assert(q4 == y / 4);
    assert(q100 == y / 100);
    assert(q400 == y / 400);
    let total: i64 = 365 * (date.year as i64 - 1) + q4 - q100 + q400 + month_offset(
        date.year,
        date.month,
    ) + date.day as i64;
    total as i32
}

impl Date {
    /// Whether the date exists in the supported range.
    pub fn is_valid(&self) -> (r: bool)
        ensures
            r == self.wf(),
    {
        checked_date(self.year, self.month, self.day).is_some()
    }
}

/// Whether `a` falls on or before `b`.
pub fn is_on_or_before(a: &Date, b: &Date) -> (r: bool)
    ensures
        r == date_le(*a, *b),
{
    if a.year != b.year {
        a.year < b.year
    } else if a.month != b.month {
        a.month < b.month
    } else {
        a.day <= b.day
    }
}

/// Year and month reached `months` months after `date`, and the day of month
/// stepped down to 28 where it was beyond.
pub open spec fn months_later(date: Date, months: nat) -> (int, int, int) {
    let total = (date.month - 1) + months;
    (
        date.year + total / 12,
        total % 12 + 1,
        if date.day > CLAMP_DAY { CLAMP_DAY as int } else { date.day as int },
    )
}

/// `date` advanced by `months` calendar months, the day of month clamped to 28;
/// `None` where the year would leave the supported range.
pub fn add_months(date: Date, months: u32) -> (r: Option<Date>)
    requires
        date.wf(),
    ensures
        r is Some <==> months_later(date, months as nat).0 <= MAX_YEAR,
        r matches Some(d) ==> d.ymd() == months_later(date, months as nat) && d.wf(),
{
    let total: u64 = (date.month as u64 - 1) + months as u64;
    let years: u64 = total / 12;
    let month: u32 = (total % 12) as u32 + 1;
    let day: u32 = if date.day > CLAMP_DAY {
        CLAMP_DAY
    } else {
        date.day
    };
    if years > (MAX_YEAR as i64 - date.year as i64) as u64 {
        return None;
    }
    let year: i32 = (date.year as i64 + years as i64) as i32;
    assert(1 <= day <= 28);
    checked_date(year, month, day)
}

} // verus!
