//! Calendar dates and date-times of the ledger, and the month span used by
//! range queries and statistics.

use chrono::Datelike;
use chrono::NaiveDate;
use vstd::prelude::*;

verus! {

/// First year that chrono's `NaiveDate` represents.
pub const MIN_YEAR: i32 = -262143;

/// Last year that chrono's `NaiveDate` represents.
pub const MAX_YEAR: i32 = 262142;

/// Leap years of the proleptic Gregorian calendar.
pub open spec fn is_leap_year(y: int) -> bool {
    (y % 4 == 0 && y % 100 != 0) || y % 400 == 0
}

/// Number of days of month `m` (1 to 12) in year `y`.
pub open spec fn days_in_month(y: int, m: int) -> int {
    if m == 2 {
        if is_leap_year(y) {
            29
        } else {
            28
        }
    } else if m == 4 || m == 6 || m == 9 || m == 11 {
        30
    } else {
        31
    }
}

/// A calendar day that exists and lies in the representable range.
pub open spec fn valid_ymd(y: int, m: int, d: int) -> bool {
    &&& MIN_YEAR <= y <= MAX_YEAR
    &&& 1 <= m <= 12
    &&& 1 <= d <= days_in_month(y, m)
}

/// The calendar day before `(y, m, d)`.
pub open spec fn prev_day(y: int, m: int, d: int) -> (int, int, int) {
    if d > 1 {
        (y, m, d - 1)
    } else if m > 1 {
        (y, m - 1, days_in_month(y, m - 1))
    } else {
        (y - 1, 12, 31)
    }
}

/// Relies on chrono's `NaiveDate::from_ymd_opt` and `NaiveDate::pred_opt`: the
/// calendar day before a valid date, and `None` for a day that does not exist
/// or for the first representable day.
#[verifier::external_body]
fn day_before(year: i32, month: u32, day: u32) -> (r: Option<(i32, u32, u32)>)
    ensures
        r == (if valid_ymd(year as int, month as int, day as int) && !(year == MIN_YEAR
            && month == 1 && day == 1) {
            Some(
                (
                    prev_day(year as int, month as int, day as int).0 as i32,
                    prev_day(year as int, month as int, day as int).1 as u32,
                    prev_day(year as int, month as int, day as int).2 as u32,
                ),
            )
        } else {
            None
        }),
{
    match NaiveDate::from_ymd_opt(year, month, day) {
        Some(d) => match d.pred_opt() {
            Some(p) => Some((p.year(), p.month(), p.day())),
            None => None,
        },
        None => None,
    }
}

/// A calendar day.
#[derive(Clone, Copy, Debug, PartialEq, Eq, Structural)]
pub struct Date {
    pub year: i32,
    pub month: u32,
    pub day: u32,
}

/// A calendar day and a time of day, to the second, without a time zone.
#[derive(Clone, Copy, Debug, PartialEq, Eq, Structural)]
pub struct DateTime {
    pub date: Date,
    pub hour: u32,
    pub minute: u32,
    pub second: u32,
}

impl Date {
    pub open spec fn valid(self) -> bool {
        valid_ymd(self.year as int, self.month as int, self.day as int)
    }

    /// The moment `hour:minute:second` of this day.
    pub fn and_hms(&self, hour: u32, minute: u32, second: u32) -> (r: DateTime)
        ensures
            r == at_hms(*self, hour, minute, second),
    {
        DateTime { date: *self, hour, minute, second }
    }
}

impl DateTime {
    pub open spec fn valid(self) -> bool {
        self.date.valid() && self.hour < 24 && self.minute < 60 && self.second < 60
    }
}

pub open spec fn at_hms(d: Date, hour: u32, minute: u32, second: u32) -> DateTime {
    DateTime { date: d, hour, minute, second }
}

/// Position of a day on a line: for valid days, a later day has a larger key.
pub open spec fn date_key(d: Date) -> int {
    d.year as int * 416 + d.month as int * 32 + d.day as int
}

/// Position of a moment on a line, in seconds: for valid moments, a later one
/// has a larger key.
pub open spec fn datetime_key(t: DateTime) -> int {
    date_key(t.date) * 86400 + t.hour as int * 3600 + t.minute as int * 60 + t.second as int
}

/// The moment `t` lies between `start` at 00:00:00 and `end` at 23:59:59, both
/// included.
pub open spec fn in_day_range(t: DateTime, start: Date, end: Date) -> bool {
    &&& datetime_key(at_hms(start, 0, 0, 0)) <= datetime_key(t)
    &&& datetime_key(t) <= datetime_key(at_hms(end, 23, 59, 59))
}

/// The key of `t` as a machine integer.
pub fn datetime_ordinal(t: &DateTime) -> (r: i64)
    ensures
        r == datetime_key(*t),
{
    let d = t.date.year as i64 * 416 + t.date.month as i64 * 32 + t.date.day as i64;
    d * 86400 + t.hour as i64 * 3600 + t.minute as i64 * 60 + t.second as i64
}

/// Whether `t` lies in the inclusive day range from `start` to `end`.
pub fn is_in_day_range(t: &DateTime, start: &Date, end: &Date) -> (r: bool)
    ensures
        r == in_day_range(*t, *start, *end),
{
    let lo = datetime_ordinal(&start.and_hms(0, 0, 0));
    let hi = datetime_ordinal(&end.and_hms(23, 59, 59));
    let k = datetime_ordinal(t);
    lo <= k && k <= hi
}

/// The year and month for which a month span exists: the month after it must
/// still be representable.
pub open spec fn month_in_range(year: i32, month: u32) -> bool {
    &&& 1 <= month <= 12
    &&& MIN_YEAR <= year <= MAX_YEAR
    &&& (year < MAX_YEAR || month < 12)
}

/// The first and the last day of month `month` of `year`.
pub fn get_month_date_range(year: i32, month: u32) -> (r: (Date, Date))
    requires
        month_in_range(year, month),
    ensures
        r.0 == (Date { year, month, day: 1 }),
        r.1 == (Date { year, month, day: days_in_month(year as int, month as int) as u32 }),
        r.0.valid(),
        r.1.valid(),
{
    let month_start = Date { year, month, day: 1 };
    let (next_year, next_month): (i32, u32) = if month == 12 {
        (year + 1, 1)
    } else {
        (year, month + 1)
    };
    match day_before(next_year, next_month, 1) {
        Some((y, m, d)) => (month_start, Date { year: y, month: m, day: d }),
        None => {
            proof {
                assert(valid_ymd(next_year as int, next_month as int, 1));
            }
            unreached()
        },
    }
}

/// Whether `year` is a leap year.
pub fn leap_year(year: i32) -> (r: bool)
    ensures
        r == is_leap_year(year as int),
{
    // A shift by a multiple of 400 keeps the calendar and makes the year non-negative.
    let y: u64 = (year as i64 + 2400000000i64) as u64;
    proof {
        let k = 2400000000int;
        assert((y as int) == year as int + k);
        assert((year as int + k) % 4 == (year as int) % 4);
        assert((year as int + k) % 100 == (year as int) % 100);
        assert((year as int + k) % 400 == (year as int) % 400);
    }
    (y % 4 == 0 && y % 100 != 0) || y % 400 == 0
}

/// Number of days of month `month` (1 to 12) in `year`.
pub fn month_length(year: i32, month: u32) -> (r: u32)
    ensures
        r == days_in_month(year as int, month as int),
{
    if month == 2 {
        if leap_year(year) {
            29
        } else {
            28
        }
    } else if month == 4 || month == 6 || month == 9 || month == 11 {
        30
    } else {
        31
    }
}

impl Date {
    /// Whether this day exists and lies in the representable range.
    pub fn is_valid(&self) -> (r: bool)
        ensures
            r == self.valid(),
    {
        MIN_YEAR <= self.year && self.year <= MAX_YEAR && 1 <= self.month && self.month <= 12
            && 1 <= self.day && self.day <= month_length(self.year, self.month)
    }
}

impl DateTime {
    /// Whether this moment exists: a valid day and a time of day to the second.
    pub fn is_valid(&self) -> (r: bool)
        ensures
            r == self.valid(),
    {
        self.date.is_valid() && self.hour < 24 && self.minute < 60 && self.second < 60
    }
}

/// The month before `month` of `year`.
pub fn previous_month(year: i32, month: u32) -> (r: (i32, u32))
    requires
        1 <= month <= 12,
        month == 1 ==> year > i32::MIN,
    ensures
        r == (if month == 1 {
            ((year - 1) as i32, 12u32)
        } else {
            (year, (month - 1) as u32)
        }),
{
    if month == 1 {
        (year - 1, 12)
    } else {
        (year, month - 1)
    }
}

/// The month after `month` of `year`.
pub fn next_month(year: i32, month: u32) -> (r: (i32, u32))
    requires
        1 <= month <= 12,
        month == 12 ==> year < i32::MAX,
    ensures
        r == (if month == 12 {
            ((year + 1) as i32, 1u32)
        } else {
            (year, (month + 1) as u32)
        }),
{
    if month == 12 {
        (year + 1, 1)
    } else {
        (year, month + 1)
    }
}

} // verus!
