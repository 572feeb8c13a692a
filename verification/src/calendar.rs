//! Calendar dates as plain year, month and day, and the two questions the
//! report asks of the `chrono` calendar: which day precedes a given day, and
//! how many days lie between two days.

use chrono::Datelike;
use chrono::NaiveDate;
use vstd::pervasive::unreached;
use vstd::prelude::*;

verus! {

/// The earliest year in which `chrono` can place a date.
pub const MIN_YEAR: i32 = -262143;

/// The latest year in which `chrono` can place a date.
pub const MAX_YEAR: i32 = 262142;

/// A day of the proleptic Gregorian calendar.
#[derive(Clone, Copy, Debug, PartialEq, Eq, Structural)]
pub struct Date {
    pub year: i32,
    pub month: u32,
    pub day: u32,
}

/// Leap years of the proleptic Gregorian calendar; year 0 is one of them.
pub open spec fn is_leap_year(year: int) -> bool {
    year % 4 == 0 && (year % 100 != 0 || year % 400 == 0)
}

/// The number of days of a month; meaningful for months 1 to 12.
pub open spec fn days_in_month(year: int, month: int) -> int {
    if month == 2 {
        if is_leap_year(year) {
            29
        } else {
            28
        }
    } else if month == 4 || month == 6 || month == 9 || month == 11 {
        30
    } else {
        31
    }
}

/// Whether year, month and day name a day that the calendar can represent.
pub open spec fn valid_ymd(year: int, month: int, day: int) -> bool {
    &&& MIN_YEAR <= year <= MAX_YEAR
    &&& 1 <= month <= 12
    &&& 1 <= day <= days_in_month(year, month)
}

/// Whether (year, month) can serve as a reference month: a month of the
/// calendar whose following month also begins inside the calendar.
pub open spec fn valid_reference_month(year: int, month: int) -> bool {
    &&& MIN_YEAR <= year <= MAX_YEAR
    &&& 1 <= month <= 12
    &&& !(year == MAX_YEAR && month == 12)
}

/// The days between 1 January of year 1 and 1 January of `year`; negative
/// for earlier years.
pub open spec fn days_before_year(year: int) -> int {
    let y = year - 1;
    365 * y + y / 4 - y / 100 + y / 400
}

/// The days of `year` that lie before the first day of `month`.
pub open spec fn days_before_month(year: int, month: int) -> int
    decreases month,
{
    if month <= 1 {
        0
    } else {
        days_before_month(year, month - 1) + days_in_month(year, month - 1)
    }
}

impl Date {
    /// The date names an existing day within the calendar's range.
    pub open spec fn wf(&self) -> bool {
        valid_ymd(self.year as int, self.month as int, self.day as int)
    }

    /// The day's position in the calendar, counted so that 1 January of
    /// year 1 is day 1.
    pub open spec fn day_number(&self) -> int {
        days_before_year(self.year as int) + days_before_month(
            self.year as int,
            self.month as int,
        ) + self.day
    }

    /// Whether the date lies in the given month of the given year.
    pub open spec fn in_month(&self, year: int, month: int) -> bool {
        self.year == year && self.month == month
    }

    /// The calendar day before this one; `None` for the first day of the
    /// calendar.
    pub open spec fn previous(&self) -> Option<Date> {
        if self.day > 1 {
            Some(Date { year: self.year, month: self.month, day: (self.day - 1) as u32 })
        } else if self.month > 1 {
            Some(
                Date {
                    year: self.year,
                    month: (self.month - 1) as u32,
                    day: days_in_month(self.year as int, self.month - 1) as u32,
                },
            )
        } else if self.year > MIN_YEAR {
            Some(Date { year: (self.year - 1) as i32, month: 12, day: 31 })
        } else {
            None
        }
    }

    /// Builds a date, or returns `None` when the day does not exist or lies
    /// outside the calendar's range.
    pub fn new(year: i32, month: u32, day: u32) -> (date: Option<Date>)
        ensures
            date == (if valid_ymd(year as int, month as int, day as int) {
                Some(Date { year, month, day })
            } else {
                None
            }),
    {
        if year < MIN_YEAR || year > MAX_YEAR || month < 1 || month > 12 || day < 1 {
            return None;
        }
        // December has 31 days in every year, and the last December of the
        // calendar has no following month to step back from.
        let limit: u32 = if month == 12 {
            31
        } else {
            max_days_in_month(year, month)
        };
        if day <= limit {
            Some(Date { year, month, day })
        } else {
            None
        }
    }

    /// Whether the date names an existing day within the calendar's range.
    pub fn is_valid(&self) -> (valid: bool)
        ensures
            valid == self.wf(),
    {
        Date::new(self.year, self.month, self.day).is_some()
    }

    /// The first day of a month.
    pub fn first_of_month(year: i32, month: u32) -> (date: Date)
        requires
            valid_ymd(year as int, month as int, 1),
        ensures
            date == (Date { year, month, day: 1 }),
            date.wf(),
    {
        Date { year, month, day: 1 }
    }

    /// The last day of a month.
    pub fn last_of_month(year: i32, month: u32) -> (date: Date)
        requires
            valid_reference_month(year as int, month as int),
        ensures
            date == (Date { year, month, day: days_in_month(year as int, month as int) as u32 }),
            date.wf(),
    {
        Date { year, month, day: max_days_in_month(year, month) }
    }
}

/// Calls `chrono::NaiveDate::pred_opt` on the day that `date` names, and
/// reads year, month and day of the answer.
///
/// Assumed of `chrono`: the answer is the preceding day of the proleptic
/// Gregorian calendar, and there is none before 1 January of `MIN_YEAR`.
#[verifier::external_body]
fn previous_day(date: Date) -> (previous: Option<Date>)
    requires
        date.wf(),
    ensures
        previous == date.previous(),
{
    let day = NaiveDate::from_ymd_opt(date.year, date.month, date.day).unwrap();
    match day.pred_opt() {
        Some(p) => Some(Date { year: p.year(), month: p.month(), day: p.day() }),
        None => None,
    }
}

/// Calls `chrono::NaiveDate::signed_duration_since` on the days that `to`
/// and `from` name, and `chrono::TimeDelta::num_days` on the answer.
///
/// Assumed of `chrono`: the answer is the number of days from `from` to
/// `to` in the proleptic Gregorian calendar, negative when `to` is the
/// earlier day.
#[verifier::external_body]
pub(crate) fn days_between(from: Date, to: Date) -> (days: i64)
    requires
        from.wf(),
        to.wf(),
    ensures
        days == to.day_number() - from.day_number(),
{
    let start = NaiveDate::from_ymd_opt(from.year, from.month, from.day).unwrap();
    let end = NaiveDate::from_ymd_opt(to.year, to.month, to.day).unwrap();
    end.signed_duration_since(start).num_days()
}

/// Whether (year, month) can serve as a reference month.
pub fn is_reference_month(year: i32, month: u32) -> (valid: bool)
    ensures
        valid == valid_reference_month(year as int, month as int),
{
    MIN_YEAR <= year && year <= MAX_YEAR && 1 <= month && month <= 12 && !(year == MAX_YEAR
        && month == 12)
}

/// What `chrono` reads out of `text` as a date written in `format`; `None`
/// where it reads none.
pub uninterp spec fn parsed_date(text: Seq<char>, format: Seq<char>) -> Option<Date>;

/// Calls `chrono::NaiveDate::parse_from_str`, and reads year, month and day
/// of the date it gives.
///
/// Assumed of `chrono`: the answer depends on the two texts alone, and a
/// date that it gives is a day of the calendar.
#[verifier::external_body]
pub(crate) fn parse_date(text: &str, format: &str) -> (date: Option<Date>)
    ensures
        date == parsed_date(text@, format@),
        date matches Some(d) ==> d.wf(),
{
    match NaiveDate::parse_from_str(text, format) {
        Ok(d) => Some(Date { year: d.year(), month: d.month(), day: d.day() }),
        Err(_) => None,
    }
}

/// The number of days of a month, found by stepping one day back from the
/// first day of the following month.
pub fn max_days_in_month(year: i32, month: u32) -> (days: u32)
    requires
        valid_reference_month(year as int, month as int),
    ensures
        days == days_in_month(year as int, month as int),
{
    let first_day_of_next_month = if month == 12 {
        Date { year: year + 1, month: 1, day: 1 }
    } else {
        Date { year, month: month + 1, day: 1 }
    };
    match previous_day(first_day_of_next_month) {
        Some(last_day_of_month) => last_day_of_month.day,
        None => unreached(),
    }
}

} // verus!
