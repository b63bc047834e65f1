//! Which report is the current one, and where it is published.

use crate::calendar::{CalendarDate, Timestamp};
use crate::digits::{decimal_digits, fixed_digits, lemma_two_more_digits};
use vstd::prelude::*;

verus! {

/// The hour of the day, in UTC, after which the report of the next day is
/// taken as published.
pub const CUTOFF_HOUR: u32 = 14;

/// What every report address begins with.
pub const URL_HEAD: &'static str = "https://www.ercot.com/content/cdr/html/";

/// What every report address ends with.
pub const URL_TAIL: &'static str = "_dam_spp.html";

/// Whether `now` lies after the cutoff of its own day, 14:00:00 sharp.
pub open spec fn after_cutoff(now: Timestamp) -> bool {
    now.hour > CUTOFF_HOUR || (now.hour == CUTOFF_HOUR && (now.minute > 0 || now.second > 0
        || now.nanosecond > 0))
}

/// The date whose report is the current one at `now`: the day of `now` up to
/// and including the cutoff, the day after it from then on.
pub open spec fn target_date(now: Timestamp) -> CalendarDate {
    if after_cutoff(now) {
        now.date.successor()
    } else {
        now.date
    }
}

/// The digits of `n`, four at the least.
pub open spec fn four_or_more_digits(n: int) -> Seq<char> {
    if n <= 9999 {
        fixed_digits(n, 4)
    } else {
        decimal_digits(n)
    }
}

/// The year as the address has it: four digits from 0 to 9999; a sign in
/// front of at least four digits before and after that.
pub open spec fn year_text(year: int) -> Seq<char> {
    if 0 <= year <= 9999 {
        fixed_digits(year, 4)
    } else if year < 0 {
        seq!['-'] + four_or_more_digits(-year)
    } else {
        seq!['+'] + four_or_more_digits(year)
    }
}

/// Year, month and day of `date` with nothing between them, month and day
/// in two digits each.
pub open spec fn date_digits(date: CalendarDate) -> Seq<char> {
    year_text(date.year as int) + fixed_digits(date.month as int, 2) + fixed_digits(
        date.day as int,
        2,
    )
}

/// The address of the report for `date`.
pub open spec fn url_text(date: CalendarDate) -> Seq<char> {
    URL_HEAD@ + date_digits(date) + URL_TAIL@
}

/// Up to and including 14:00:00 the report of the day is the current one;
/// from the first moment after it, that of the day after. So it is with
/// one second to go and with one second gone.
pub proof fn lemma_cutoff_boundary(now: Timestamp)
    ensures
        now.hour == 13 && now.minute == 59 && now.second == 59 ==> target_date(now) == now.date,
        now.hour == 14 && now.minute == 0 && now.second == 0 && now.nanosecond == 0
            ==> target_date(now) == now.date,
        now.hour == 14 && now.minute == 0 && now.second == 1 ==> target_date(now)
            == now.date.successor(),
{
}

/// From the year 0 to the year 9999 the digits of a date are the eight
/// digits of the number year * 10000 + month * 100 + day.
pub proof fn lemma_date_digits_are_eight(date: CalendarDate)
    requires
        date.valid(),
        0 <= date.year <= 9999,
    ensures
        date_digits(date) == fixed_digits(date.year * 10000 + date.month * 100 + date.day, 8),
{
    let months = date.year * 100 + date.month;
    lemma_two_more_digits(date.year as int, date.month as int, 4);
    lemma_two_more_digits(months, date.day as int, 6);
    assert(months * 100 + date.day == date.year * 10000 + date.month * 100 + date.day);
}

/// The digits of `date`, by chrono's `NaiveDate::format` with the pattern
/// `%Y%m%d` and `to_string` on what it returns; the date is rebuilt with
/// `NaiveDate::from_ymd_opt`. Trusted: `%Y` writes the years 0 to 9999 in
/// four digits and any other year as a sign and at least four digits, `%m`
/// and `%d` write two digits each, and a date that exists is always built.
#[verifier::external_body]
fn format_ymd(date: CalendarDate) -> (digits: Option<String>)
    requires
        date.valid(),
    ensures
        digits.is_some(),
        digits.unwrap()@ == date_digits(date),
{
    chrono::NaiveDate::from_ymd_opt(date.year, date.month, date.day)
        .map(|d| d.format("%Y%m%d").to_string())
}

/// Whether `now` lies after the cutoff of its own day.
pub fn is_after_cutoff(now: Timestamp) -> (after: bool)
    ensures
        after == after_cutoff(now),
{
    now.hour > CUTOFF_HOUR || (now.hour == CUTOFF_HOUR && (now.minute > 0 || now.second > 0
        || now.nanosecond > 0))
}

/// The date whose report is the current one at `now`.
pub fn report_date(now: Timestamp) -> (date: CalendarDate)
    requires
        now.valid(),
        !(after_cutoff(now) && now.date.is_last()),
    ensures
        date == target_date(now),
        date.valid(),
{
    if is_after_cutoff(now) {
        match now.date.next_day() {
            Some(next) => next,
            None => now.date,
        }
    } else {
        now.date
    }
}

/// The address of the report for the day of `date`; the time of day plays
/// no part.
pub fn get_ercot_url(date: Timestamp) -> (url: String)
    requires
        date.date.valid(),
    ensures
        url@ == url_text(date.date),
{
    let digits = format_ymd(date.date).unwrap();
    let mut url = String::from_str(URL_HEAD);
    url.append(digits.as_str());
    url.append(URL_TAIL);
    url
}

/// The address of the report that is the current one at `now`.
pub fn report_url(now: Timestamp) -> (url: String)
    requires
        now.valid(),
        !(after_cutoff(now) && now.date.is_last()),
    ensures
        url@ == url_text(target_date(now)),
{
    let date = report_date(now);
    get_ercot_url(
        Timestamp {
            date,
            hour: now.hour,
            minute: now.minute,
            second: now.second,
            nanosecond: now.nanosecond,
        },
    )
}

/// The address of the report that is the current one at `now`, for any
/// fields whatever: nothing where `now` is no moment that exists, or where
/// the report would be that of a day after the last date.
pub fn current_report_url(now: Timestamp) -> (url: Option<String>)
    ensures
        url.is_some() == (now.valid() && !(after_cutoff(now) && now.date.is_last())),
        url matches Some(text) ==> text@ == url_text(target_date(now)),
{
    if now.is_valid() && !(is_after_cutoff(now) && now.date.is_last_date()) {
        Some(report_url(now))
    } else {
        None
    }
}

} // verus!
