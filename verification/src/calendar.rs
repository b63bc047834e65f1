//! Calendar dates and moments of a day in UTC, held as plain numbers.
//!
//! The dates are those of the proleptic Gregorian calendar that chrono can
//! hold, so that every date and time of chrono has its `Timestamp`.

use chrono::Datelike;
use vstd::prelude::*;

verus! {

/// The first year a date can have.
pub const MIN_YEAR: i32 = -262_143;

/// The last year a date can have.
pub const MAX_YEAR: i32 = 262_142;

/// Whether `year` has a 29th of February.
pub open spec fn is_leap_year(year: int) -> bool {
    year % 4 == 0 && (year % 100 != 0 || year % 400 == 0)
}

/// The number of days of `month` in `year`.
pub open spec fn days_in_month(year: int, month: int) -> int {
    if month == 2 {
        if is_leap_year(year) {
            29
        } else {
            28
        }
    } else if month == 4 || month == 6 || month == 9 || month == 11 {
        30
    } else {
        31
    }
}

/// Whether `year` is a leap year.
pub fn leap_year(year: i32) -> (leap: bool)
    ensures
        leap == is_leap_year(year as int),
{
    // 2_147_484_000 is a multiple of 400, so the shifted year is never
    // negative and divides as the year does.
    let shifted: i64 = year as i64 + 2_147_484_000;
    shifted % 4 == 0 && (shifted % 100 != 0 || shifted % 400 == 0)
}

fn month_length(year: i32, month: u32) -> (days: u32)
    requires
        1 <= month <= 12,
    ensures
        days == days_in_month(year as int, month as int),
{
    if month == 2 {
        if leap_year(year) {
            29
        } else {
            28
        }
    } else if month == 4 || month == 6 || month == 9 || month == 11 {
        30
    } else {
        31
    }
}

/// A day of the calendar.
#[derive(Clone, Copy, Debug, PartialEq, Eq)]
pub struct CalendarDate {
    pub year: i32,
    pub month: u32,
    pub day: u32,
}

impl CalendarDate {
    /// The date exists: the year is in range, the month is one of twelve and
    /// the month has that day.
    pub open spec fn valid(self) -> bool {
        &&& MIN_YEAR <= self.year <= MAX_YEAR
        &&& 1 <= self.month <= 12
        &&& 1 <= self.day <= days_in_month(self.year as int, self.month as int)
    }

    /// The last date that can be held.
    pub open spec fn is_last(self) -> bool {
        self.year == MAX_YEAR && self.month == 12 && self.day == 31
    }

    /// The calendar day after this one.
    pub open spec fn successor(self) -> CalendarDate {
        if self.day < days_in_month(self.year as int, self.month as int) {
            CalendarDate { year: self.year, month: self.month, day: (self.day + 1) as u32 }
        } else if self.month < 12 {
            CalendarDate { year: self.year, month: (self.month + 1) as u32, day: 1 }
        } else {
            CalendarDate { year: (self.year + 1) as i32, month: 1, day: 1 }
        }
    }

    /// The day after a date that exists and is not the last one exists too.
    pub proof fn lemma_successor_valid(self)
        requires
            self.valid(),
            !self.is_last(),
        ensures
            self.successor().valid(),
    {
    }

    /// The date of the given year, month and day, if there is such a day.
    pub fn new(year: i32, month: u32, day: u32) -> (date: Option<CalendarDate>)
        ensures
            date == (if (CalendarDate { year, month, day }).valid() {
                Some(CalendarDate { year, month, day })
            } else {
                None
            }),
    {
        if year < MIN_YEAR || year > MAX_YEAR || month < 1 || month > 12 || day < 1 {
            return None;
        }
        if day > month_length(year, month) {
            return None;
        }
        Some(CalendarDate { year, month, day })
    }

    /// Whether the fields make up a date that exists.
    pub fn is_valid(self) -> (ok: bool)
        ensures
            ok == self.valid(),
    {
        CalendarDate::new(self.year, self.month, self.day).is_some()
    }

    /// Whether this is the last date that can be held.
    pub fn is_last_date(self) -> (last: bool)
        ensures
            last == self.is_last(),
    {
        self.year == MAX_YEAR && self.month == 12 && self.day == 31
    }

    /// The day after this one, or nothing after the last date.
    pub fn next_day(self) -> (next: Option<CalendarDate>)
        requires
            self.valid(),
        ensures
            next == (if self.is_last() {
                None
            } else {
                Some(self.successor())
            }),
            next matches Some(d) ==> d.valid(),
    {
        proof {
            if !self.is_last() {
                self.lemma_successor_valid();
            }
        }
        add_one_day(self)
    }
}

/// The day after `date`, by chrono's `NaiveDate::checked_add_signed` with a
/// duration of one day. The date is rebuilt with `NaiveDate::from_ymd_opt`
/// and read back with `Datelike::year`, `month` and `day`. Trusted: adding
/// one day to a date that exists gives the next day of the proleptic
/// Gregorian calendar, and nothing on the last date that chrono can hold,
/// the 31st of December of `MAX_YEAR`.
#[verifier::external_body]
fn add_one_day(date: CalendarDate) -> (next: Option<CalendarDate>)
    requires
        date.valid(),
    ensures
        next == (if date.is_last() {
            None
        } else {
            Some(date.successor())
        }),
{
    chrono::NaiveDate::from_ymd_opt(date.year, date.month, date.day)
        .and_then(|d| d.checked_add_signed(chrono::Duration::days(1)))
        .map(|d| CalendarDate { year: d.year(), month: d.month(), day: d.day() })
}

/// A moment of a calendar day in UTC. A leap second is held as second 59
/// with a nanosecond of a thousand million or more.
#[derive(Clone, Copy, Debug, PartialEq, Eq)]
pub struct Timestamp {
    pub date: CalendarDate,
    pub hour: u32,
    pub minute: u32,
    pub second: u32,
    pub nanosecond: u32,
}

impl Timestamp {
    /// The date exists and the time is one of its day.
    pub open spec fn valid(self) -> bool {
        &&& self.date.valid()
        &&& self.hour < 24
        &&& self.minute < 60
        &&& self.second < 60
        &&& self.nanosecond < 2_000_000_000
        &&& (self.nanosecond >= 1_000_000_000 ==> self.second == 59)
    }

    /// The moment of the given date at the given whole second, if there is
    /// such a day and such a time.
    pub fn from_ymd_hms(
        year: i32,
        month: u32,
        day: u32,
        hour: u32,
        minute: u32,
        second: u32,
    ) -> (moment: Option<Timestamp>)
        ensures
            moment == (if (CalendarDate { year, month, day }).valid() && hour < 24 && minute < 60
                && second < 60 {
                Some(
                    Timestamp {
                        date: CalendarDate { year, month, day },
                        hour,
                        minute,
                        second,
                        nanosecond: 0,
                    },
                )
            } else {
                None
            }),
            moment matches Some(t) ==> t.valid(),
    {
        match CalendarDate::new(year, month, day) {
            Some(date) => {
                if hour < 24 && minute < 60 && second < 60 {
                    Some(Timestamp { date, hour, minute, second, nanosecond: 0 })
                } else {
                    None
                }
            },
            None => None,
        }
    }

    /// Whether the fields make up a moment that exists.
    pub fn is_valid(self) -> (ok: bool)
        ensures
            ok == self.valid(),
    {
        self.date.is_valid() && self.hour < 24 && self.minute < 60 && self.second < 60 && (
        self.nanosecond < 1_000_000_000 || (self.second == 59 && self.nanosecond
            < 2_000_000_000))
    }
}

} // verus!
