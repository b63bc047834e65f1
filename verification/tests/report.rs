use chrono::Datelike;
use ercot_spp::calendar::{leap_year, CalendarDate, Timestamp, MAX_YEAR, MIN_YEAR};
use ercot_spp::digits::decimal_string;
use ercot_spp::report::{
    current_report_url, get_ercot_url, is_after_cutoff, report_date, report_url,
};

fn moment(year: i32, month: u32, day: u32, hour: u32, minute: u32, second: u32) -> Timestamp {
    Timestamp::from_ymd_hms(year, month, day, hour, minute, second).unwrap()
}

fn date(year: i32, month: u32, day: u32) -> CalendarDate {
    CalendarDate::new(year, month, day).unwrap()
}

#[test]
fn test_get_ercot_url() {
    let date = Timestamp::from_ymd_hms(2022, 3, 14, 9, 10, 11).unwrap();
    let expected_url = String::from("https://www.ercot.com/content/cdr/html/20220314_dam_spp.html");
    assert_eq!(get_ercot_url(date), expected_url);
}

#[test]
fn url_pads_month_and_day() {
    assert_eq!(
        get_ercot_url(moment(2024, 1, 5, 0, 0, 0)),
        "https://www.ercot.com/content/cdr/html/20240105_dam_spp.html"
    );
    assert_eq!(
        get_ercot_url(moment(1999, 12, 31, 23, 59, 59)),
        "https://www.ercot.com/content/cdr/html/19991231_dam_spp.html"
    );
}

#[test]
fn url_pads_short_years() {
    assert_eq!(
        get_ercot_url(moment(987, 6, 5, 0, 0, 0)),
        "https://www.ercot.com/content/cdr/html/09870605_dam_spp.html"
    );
    assert_eq!(
        get_ercot_url(moment(0, 1, 1, 0, 0, 0)),
        "https://www.ercot.com/content/cdr/html/00000101_dam_spp.html"
    );
}

#[test]
fn url_signs_years_out_of_four_digits() {
    assert_eq!(
        get_ercot_url(moment(10000, 1, 1, 0, 0, 0)),
        "https://www.ercot.com/content/cdr/html/+100000101_dam_spp.html"
    );
    assert_eq!(
        get_ercot_url(moment(-1, 12, 31, 0, 0, 0)),
        "https://www.ercot.com/content/cdr/html/-00011231_dam_spp.html"
    );
    assert_eq!(
        get_ercot_url(moment(MIN_YEAR, 1, 1, 0, 0, 0)),
        "https://www.ercot.com/content/cdr/html/-2621430101_dam_spp.html"
    );
    assert_eq!(
        get_ercot_url(moment(MAX_YEAR, 12, 31, 0, 0, 0)),
        "https://www.ercot.com/content/cdr/html/+2621421231_dam_spp.html"
    );
}

#[test]
fn url_ignores_the_time_of_day() {
    assert_eq!(
        get_ercot_url(moment(2022, 3, 14, 0, 0, 0)),
        get_ercot_url(moment(2022, 3, 14, 23, 59, 59))
    );
}

#[test]
fn one_second_before_the_cutoff_is_today() {
    let now = moment(2022, 3, 14, 13, 59, 59);
    assert!(!is_after_cutoff(now));
    assert_eq!(report_date(now), date(2022, 3, 14));
    assert_eq!(
        report_url(now),
        "https://www.ercot.com/content/cdr/html/20220314_dam_spp.html"
    );
}

#[test]
fn one_second_after_the_cutoff_is_tomorrow() {
    let now = moment(2022, 3, 14, 14, 0, 1);
    assert!(is_after_cutoff(now));
    assert_eq!(report_date(now), date(2022, 3, 15));
    assert_eq!(
        report_url(now),
        "https://www.ercot.com/content/cdr/html/20220315_dam_spp.html"
    );
}

#[test]
fn the_cutoff_itself_is_today() {
    let now = moment(2022, 3, 14, 14, 0, 0);
    assert!(!is_after_cutoff(now));
    assert_eq!(report_date(now), date(2022, 3, 14));
}

#[test]
fn one_nanosecond_after_the_cutoff_is_tomorrow() {
    let mut now = moment(2022, 3, 14, 14, 0, 0);
    now.nanosecond = 1;
    assert!(now.is_valid());
    assert!(is_after_cutoff(now));
    assert_eq!(report_date(now), date(2022, 3, 15));
}

#[test]
fn a_leap_second_before_the_cutoff_is_today() {
    let mut now = moment(2022, 3, 14, 13, 59, 59);
    now.nanosecond = 1_500_000_000;
    assert!(now.is_valid());
    assert_eq!(report_date(now), date(2022, 3, 14));
}

#[test]
fn tomorrow_crosses_months_and_years() {
    assert_eq!(report_date(moment(2022, 1, 31, 15, 0, 0)), date(2022, 2, 1));
    assert_eq!(report_date(moment(2022, 4, 30, 15, 0, 0)), date(2022, 5, 1));
    assert_eq!(report_date(moment(2022, 12, 31, 23, 59, 59)), date(2023, 1, 1));
}

#[test]
fn tomorrow_knows_leap_years() {
    assert_eq!(report_date(moment(2024, 2, 28, 15, 0, 0)), date(2024, 2, 29));
    assert_eq!(report_date(moment(2024, 2, 29, 15, 0, 0)), date(2024, 3, 1));
    assert_eq!(report_date(moment(2023, 2, 28, 15, 0, 0)), date(2023, 3, 1));
    assert_eq!(report_date(moment(1900, 2, 28, 15, 0, 0)), date(1900, 3, 1));
    assert_eq!(report_date(moment(2000, 2, 28, 15, 0, 0)), date(2000, 2, 29));
}

#[test]
fn next_day_ends_at_the_last_date() {
    assert_eq!(date(MAX_YEAR, 12, 30).next_day(), Some(date(MAX_YEAR, 12, 31)));
    assert_eq!(date(MAX_YEAR, 12, 31).next_day(), None);
    assert!(date(MAX_YEAR, 12, 31).is_last_date());
    assert!(!date(MAX_YEAR, 12, 30).is_last_date());
}

#[test]
fn next_day_follows_chrono_through_four_years() {
    let mut day = date(2023, 1, 1);
    let mut theirs = chrono::NaiveDate::from_ymd_opt(2023, 1, 1).unwrap();
    for _ in 0..1500 {
        day = day.next_day().unwrap();
        theirs = theirs.succ_opt().unwrap();
        assert_eq!((day.year, day.month, day.day), (theirs.year(), theirs.month(), theirs.day()));
    }
}

fn days_of(year: i32, month: u32) -> u32 {
    match month {
        2 if year % 4 == 0 && (year % 100 != 0 || year % 400 == 0) => 29,
        2 => 28,
        4 | 6 | 9 | 11 => 30,
        _ => 31,
    }
}

fn day_after(year: i32, month: u32, day: u32) -> (i32, u32, u32) {
    if day < days_of(year, month) {
        (year, month, day + 1)
    } else if month < 12 {
        (year, month + 1, 1)
    } else {
        (year + 1, 1, 1)
    }
}

fn check_days_from(year: i32, count: u32) {
    let mut day = date(year, 1, 1);
    for _ in 0..count {
        let next = day.next_day().unwrap();
        assert_eq!((next.year, next.month, next.day), day_after(day.year, day.month, day.day));
        day = next;
    }
}

#[test]
fn next_day_walks_the_calendar_through_four_centuries() {
    check_days_from(1600, 146_097 + 366);
}

#[test]
fn next_day_walks_the_calendar_before_the_year_one() {
    check_days_from(-801, 2 * 146_097);
    check_days_from(MIN_YEAR, 1500);
    check_days_from(MAX_YEAR - 4, 1500);
}

#[test]
fn the_digits_of_a_date_are_padded_numbers() {
    let mut day = date(-3, 1, 1);
    for _ in 0..3000 {
        let digits = if (0..=9999).contains(&day.year) {
            format!("{:04}{:02}{:02}", day.year, day.month, day.day)
        } else {
            format!("-{:04}{:02}{:02}", -day.year, day.month, day.day)
        };
        let now = Timestamp { date: day, hour: 0, minute: 0, second: 0, nanosecond: 0 };
        assert_eq!(
            get_ercot_url(now),
            format!("https://www.ercot.com/content/cdr/html/{digits}_dam_spp.html")
        );
        day = day.next_day().unwrap();
    }
}

#[test]
fn dates_exist_where_chrono_has_them() {
    for year in [MIN_YEAR - 1, MIN_YEAR, -400, -1, 0, 1, 1900, 2000, 2023, 2024, MAX_YEAR, MAX_YEAR + 1] {
        for month in 0..=13u32 {
            for day in 0..=32u32 {
                assert_eq!(
                    CalendarDate::new(year, month, day).is_some(),
                    chrono::NaiveDate::from_ymd_opt(year, month, day).is_some(),
                    "{year}-{month}-{day}"
                );
            }
        }
    }
}

#[test]
fn leap_years_come_every_fourth_year_but_for_three_centuries_in_four() {
    for year in [2024, 2000, 1600, 4, 0, -4, -400, i32::MIN] {
        assert!(leap_year(year), "{year}");
    }
    for year in [2023, 1900, 2100, 1, -1, -100, i32::MAX] {
        assert!(!leap_year(year), "{year}");
    }
}

#[test]
fn months_have_their_lengths() {
    let lengths = [31, 28, 31, 30, 31, 30, 31, 31, 30, 31, 30, 31];
    for (month, length) in (1..=12u32).zip(lengths) {
        assert!(CalendarDate::new(2023, month, length).is_some());
        assert!(CalendarDate::new(2023, month, length + 1).is_none());
    }
    assert!(CalendarDate::new(2024, 2, 29).is_some());
    assert!(CalendarDate::new(2024, 2, 30).is_none());
}

#[test]
fn moments_are_checked() {
    assert!(Timestamp::from_ymd_hms(2022, 2, 29, 0, 0, 0).is_none());
    assert!(Timestamp::from_ymd_hms(2022, 3, 14, 24, 0, 0).is_none());
    assert!(Timestamp::from_ymd_hms(2022, 3, 14, 0, 60, 0).is_none());
    assert!(Timestamp::from_ymd_hms(2022, 3, 14, 0, 0, 60).is_none());
    let mut odd = moment(2022, 3, 14, 10, 0, 0);
    odd.nanosecond = 1_000_000_000;
    assert!(!odd.is_valid());
    odd.nanosecond = 999_999_999;
    assert!(odd.is_valid());
    odd.date.month = 13;
    assert!(!odd.is_valid());
}

#[test]
fn current_report_url_tests_its_input() {
    assert_eq!(
        current_report_url(moment(2022, 3, 14, 16, 30, 0)),
        Some(String::from("https://www.ercot.com/content/cdr/html/20220315_dam_spp.html"))
    );
    assert_eq!(
        current_report_url(moment(MAX_YEAR, 12, 31, 14, 0, 0)),
        Some(String::from("https://www.ercot.com/content/cdr/html/+2621421231_dam_spp.html"))
    );
    assert_eq!(current_report_url(moment(MAX_YEAR, 12, 31, 14, 0, 1)), None);
    let mut odd = moment(2022, 3, 14, 16, 30, 0);
    odd.hour = 24;
    assert_eq!(current_report_url(odd), None);
}

#[test]
fn numbers_are_written_in_decimal() {
    for n in [0usize, 1, 9, 10, 11, 99, 100, 101, 4096, 65_535, 1_000_000, usize::MAX] {
        assert_eq!(decimal_string(n), n.to_string());
    }
}
