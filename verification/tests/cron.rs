use chrono::{DateTime, Datelike, Timelike};
use clean_recent::cron::calendar::{leap_year, month_length};
use clean_recent::cron::parse::InvalidCronExpression;
use clean_recent::cron::{allows, CronSchedule, HORIZON_DAYS};

const T0: i64 = 1_700_000_000; // 2023-11-14 22:13:20 UTC, a Tuesday

fn schedule(expr: &str) -> CronSchedule {
    CronSchedule::parse(expr).unwrap()
}

fn marked(field: &[bool]) -> Vec<usize> {
    field.iter().enumerate().filter(|(_, b)| **b).map(|(i, _)| i).collect()
}

#[test]
fn every_five_seconds() {
    let s = schedule("*/5 * * * * * *");
    assert_eq!(marked(&s.seconds), vec![0, 5, 10, 15, 20, 25, 30, 35, 40, 45, 50, 55]);
    assert_eq!(marked(&s.minutes), (0..60).collect::<Vec<_>>());
    assert_eq!(marked(&s.hours), (0..24).collect::<Vec<_>>());
    assert_eq!(marked(&s.days_of_month), (1..32).collect::<Vec<_>>());
    assert_eq!(marked(&s.months), (1..13).collect::<Vec<_>>());
    assert_eq!(marked(&s.days_of_week), (1..8).collect::<Vec<_>>());
    assert_eq!(marked(&s.years), (0..130).collect::<Vec<_>>());
    assert_eq!(s.seconds.len(), 60);
    assert_eq!(s.days_of_month.len(), 32);
    assert_eq!(s.months.len(), 13);
    assert_eq!(s.days_of_week.len(), 8);
    assert_eq!(s.years.len(), 130);
    assert_eq!(s.next_after(T0), Some(T0 + 5));
    assert_eq!(s.next_after(T0 + 1), Some(T0 + 5));
    assert_eq!(s.next_after(T0 + 4), Some(T0 + 5));
    assert_eq!(s.next_after(T0 + 5), Some(T0 + 10));
}

#[test]
fn the_next_occurrence_lies_after_the_given_time() {
    let exprs = ["* * * * * * *", "0 * * * * * *", "0 0 0 * * ? *", "13 7 5 29 2 ? *", "0 0 12 ? * 1 2040"];
    for expr in exprs {
        let s = schedule(expr);
        for t in [i64::MIN, -1, 0, 1, 59, 86_399, 86_400, T0, T0 + 1, 4_000_000_000] {
            if let Some(next) = s.next_after(t) {
                assert!(next > t, "{} after {}", expr, t);
            }
        }
    }
}

#[test]
fn fields_lists_ranges_and_steps() {
    let s = schedule("0,15,30-32 10-20/5 */6 1,15 2-4 2-6 2024-2026");
    assert_eq!(marked(&s.seconds), vec![0, 15, 30, 31, 32]);
    assert_eq!(marked(&s.minutes), vec![10, 15, 20]);
    assert_eq!(marked(&s.hours), vec![0, 6, 12, 18]);
    assert_eq!(marked(&s.days_of_month), vec![1, 15]);
    assert_eq!(marked(&s.months), vec![2, 3, 4]);
    assert_eq!(marked(&s.days_of_week), vec![2, 3, 4, 5, 6]);
    assert_eq!(marked(&s.years), vec![54, 55, 56]);
    let s = schedule("5/20 ? 7 31 12 7 2099");
    assert_eq!(marked(&s.seconds), vec![5, 25, 45]);
    assert_eq!(marked(&s.minutes), (0..60).collect::<Vec<_>>());
    assert_eq!(marked(&s.hours), vec![7]);
    assert_eq!(marked(&s.days_of_month), vec![31]);
    assert_eq!(marked(&s.months), vec![12]);
    assert_eq!(marked(&s.days_of_week), vec![7]);
    assert_eq!(marked(&s.years), vec![129]);
    let s = schedule("  0\t0   0 */10 * ?/3 1970  ");
    assert_eq!(marked(&s.days_of_month), vec![1, 11, 21, 31]);
    assert_eq!(marked(&s.days_of_week), vec![1, 4, 7]);
    assert_eq!(marked(&s.years), vec![0]);
    let s = schedule("007 0 0 1 1 ? *");
    assert_eq!(marked(&s.seconds), vec![7]);
    let s = schedule("0 0 0 1 1 ? 2000-2010/5");
    assert_eq!(marked(&s.years), vec![30, 35, 40]);
}

#[test]
fn malformed_expressions_are_refused() {
    let bad = [
        "",
        "   ",
        "* * * * * *",
        "* * * * * * * *",
        "60 * * * * * *",
        "* 60 * * * * *",
        "* * 24 * * * *",
        "* * * 0 * * *",
        "* * * 32 * * *",
        "* * * * 0 * *",
        "* * * * 13 * *",
        "* * * * * 0 *",
        "* * * * * 8 *",
        "* * * * * * 1969",
        "* * * * * * 2100",
        "*/0 * * * * * *",
        "5-3 * * * * * *",
        "1, * * * * * *",
        ",1 * * * * * *",
        "1,,2 * * * * * *",
        "1- * * * * * *",
        "-1 * * * * * *",
        "1-2-3 * * * * * *",
        "*/ * * * * * *",
        "/5 * * * * * *",
        "*/5/5 * * * * * *",
        "** * * * * * *",
        "a * * * * * *",
        "1a * * * * * *",
        "* * * * JAN * *",
        "* * * * * MON *",
        "+1 * * * * * *",
        "1.5 * * * * * *",
        "99999999999999999999 * * * * * *",
        "*\n* * * * * *",
    ];
    for expr in bad {
        assert_eq!(CronSchedule::parse(expr), Err(InvalidCronExpression), "{:?}", expr);
    }
}

#[test]
fn exact_next_occurrences() {
    assert_eq!(schedule("0 * * * * * *").next_after(T0), Some(T0 + 40));
    assert_eq!(schedule("0 15 * * * * *").next_after(T0), Some(1_700_000_100));
    assert_eq!(schedule("0 0 * * * * *").next_after(T0), Some(1_700_002_800));
    assert_eq!(schedule("0 0 0 * * ? *").next_after(T0), Some(1_700_006_400));
    assert_eq!(schedule("0 0 0 1 * ? *").next_after(T0), Some(1_701_388_800));
    assert_eq!(schedule("0 0 0 1 1 ? *").next_after(T0), Some(1_704_067_200));
    assert_eq!(schedule("0 0 0 29 2 ? *").next_after(T0), Some(1_709_164_800));
    assert_eq!(schedule("0 0 0 29 2 ? *").next_after(1_709_164_800), Some(1_835_395_200));
    assert_eq!(schedule("0 0 0 1 1 ? 2030").next_after(T0), Some(1_893_456_000));
    assert_eq!(schedule("30 13 22 14 11 ? 2023").next_after(T0), Some(T0 + 10));
    assert_eq!(schedule("20 13 22 14 11 ? 2023").next_after(T0), None);
    assert_eq!(schedule("20 13 22 14 11 ? 2023").next_after(T0 - 1), Some(T0));
}

#[test]
fn days_of_the_week_count_from_sunday() {
    // T0 is a Tuesday: 3
    assert_eq!(schedule("0 30 9 ? * 2 *").next_after(T0), Some(1_700_472_600));
    assert_eq!(schedule("0 0 0 ? * 7 *").next_after(T0), Some(1_700_265_600));
    assert_eq!(schedule("0 0 0 ? * 1 *").next_after(T0), Some(1_700_352_000));
    assert_eq!(schedule("0 0 0 ? * 4 *").next_after(T0), Some(1_700_006_400));
    assert_eq!(schedule("0 14 22 ? * 3 *").next_after(T0), Some(T0 + 40));
    // 1 January 1970 was a Thursday: 5
    assert_eq!(schedule("0 0 0 ? * 5 1970").next_after(-1), Some(0));
    assert_eq!(schedule("0 0 0 ? * 6 1970").next_after(-1), Some(86_400));
}

#[test]
fn day_of_month_and_day_of_week_both_have_to_fit() {
    // the 30th that is a Saturday: 30 November 2023 was a Thursday,
    // 30 December 2023 a Saturday
    let next = schedule("0 0 0 30 * 7 *").next_after(T0).unwrap();
    let d = DateTime::from_timestamp(next, 0).unwrap();
    assert_eq!((d.year(), d.month(), d.day()), (2023, 12, 30));
}

#[test]
fn before_the_epoch_and_at_the_horizon() {
    let s = schedule("* * * * * * *");
    assert_eq!(s.next_after(i64::MIN), Some(0));
    assert_eq!(s.next_after(-1), Some(0));
    assert_eq!(s.next_after(0), Some(1));
    assert_eq!(HORIZON_DAYS as i64 * 86_400, 4_102_444_800);
    assert_eq!(s.next_after(4_102_444_798), Some(4_102_444_799));
    assert_eq!(s.next_after(4_102_444_799), None);
    assert_eq!(s.next_after(4_102_444_800), None);
    assert_eq!(s.next_after(i64::MAX), None);
    assert_eq!(schedule("59 59 23 31 12 ? 2099").next_after(0), Some(4_102_444_799));
    assert_eq!(schedule("5 0 0 1 1 ? 1970").next_after(-5), Some(5));
}

#[test]
fn schedules_that_never_fire() {
    assert_eq!(schedule("0 0 0 31 2 ? *").next_after(T0), None);
    assert_eq!(schedule("0 0 0 30 2 ? *").next_after(0), None);
    assert_eq!(schedule("0 0 0 31 4,6,9,11 ? *").next_after(0), None);
    assert_eq!(schedule("0 0 0 1 1 ? 2023").next_after(T0), None);
    assert_eq!(schedule("0 0 0 29 2 ? 2023").next_after(0), None);
}

#[test]
fn a_schedule_of_any_shape_is_taken_as_it_is() {
    let mut s = schedule("* * * * * * *");
    s.years = vec![false; 3];
    assert_eq!(s.next_after(T0), None);
    s.years = Vec::new();
    assert_eq!(s.next_after(0), None);
    let mut s = schedule("* * * * * * *");
    s.seconds = vec![false, true];
    assert_eq!(s.next_after(T0), Some(T0 + 41));
    s.hours = Vec::new();
    assert_eq!(s.next_after(T0), None);
    assert!(allows(&vec![false, true], 1));
    assert!(!allows(&vec![false, true], 0));
    assert!(!allows(&vec![false, true], 2));
}

#[test]
fn leap_years_and_month_lengths() {
    assert!(leap_year(2000));
    assert!(leap_year(2024));
    assert!(!leap_year(1900));
    assert!(!leap_year(2100));
    assert!(!leap_year(2023));
    assert_eq!(month_length(2024, 2), 29);
    assert_eq!(month_length(2023, 2), 28);
    assert_eq!(month_length(2100, 2), 28);
    let lengths: Vec<u8> = (1..=12).map(|m| month_length(2023, m)).collect();
    assert_eq!(lengths, vec![31, 28, 31, 30, 31, 30, 31, 31, 30, 31, 30, 31]);
}

#[test]
fn the_calendar_agrees_with_chrono() {
    // instants spread over the whole range, some of them on the last and
    // first days of years and of Februaries
    let mut instants: Vec<i64> = Vec::new();
    let mut x: i64 = 12_345;
    while x < 4_102_444_800 {
        instants.push(x);
        x += 29_876_543 + (x % 1_000) * 7;
    }
    for year in [1970, 1972, 1999, 2000, 2023, 2024, 2096, 2099] {
        for (month, day) in [(1, 1), (2, 28), (2, 29), (3, 1), (12, 31)] {
            if let Some(d) = chrono::NaiveDate::from_ymd_opt(year, month, day) {
                instants.push(d.and_hms_opt(23, 59, 59).unwrap().and_utc().timestamp());
                instants.push(d.and_hms_opt(0, 0, 0).unwrap().and_utc().timestamp());
            }
        }
    }
    assert!(instants.len() > 150);
    for u in instants {
        let d = DateTime::from_timestamp(u, 0).unwrap();
        let expr = format!(
            "{} {} {} {} {} {} {}",
            d.second(),
            d.minute(),
            d.hour(),
            d.day(),
            d.month(),
            d.weekday().num_days_from_sunday() + 1,
            d.year()
        );
        let s = schedule(&expr);
        assert_eq!(s.next_after(u - 1), Some(u), "{}", expr);
        assert_eq!(s.next_after(0.min(u - 1)), Some(u), "{}", expr);
        assert_eq!(s.next_after(u), None, "{}", expr);
    }
}
