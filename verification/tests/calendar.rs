use chrono::{Datelike, NaiveDate};
use rpm_builder::calendar::{CalendarDate, SECONDS_PER_DAY};

fn timestamp(year: i32, month: u32, day: u32) -> i64 {
    CalendarDate::new(year, month, day).unwrap().midnight_timestamp()
}

#[test]
fn the_epoch_is_zero() {
    assert_eq!(timestamp(1970, 1, 1), 0);
    assert_eq!(timestamp(1970, 1, 2), 86_400);
    assert_eq!(timestamp(1969, 12, 31), -86_400);
    assert_eq!(SECONDS_PER_DAY, 86_400);
}

#[test]
fn known_midnights() {
    assert_eq!(timestamp(2024, 3, 15), 1_710_460_800);
    assert_eq!(timestamp(2000, 1, 1), 946_684_800);
    assert_eq!(timestamp(2000, 2, 29), 951_782_400);
    assert_eq!(timestamp(2000, 3, 1), 951_868_800);
    assert_eq!(timestamp(2038, 1, 19), 2_147_472_000);
    assert_eq!(timestamp(1900, 3, 1), -2_203_891_200);
    assert_eq!(timestamp(1, 1, 1), -62_135_596_800);
    assert_eq!(timestamp(0, 1, 1), -62_167_219_200);
}

#[test]
fn only_days_of_the_calendar_are_dates() {
    assert_eq!(
        CalendarDate::new(2024, 2, 29),
        Some(CalendarDate { year: 2024, month: 2, day: 29 })
    );
    assert_eq!(CalendarDate::new(2023, 2, 29), None);
    assert_eq!(CalendarDate::new(1900, 2, 29), None);
    assert!(CalendarDate::new(2000, 2, 29).is_some());
    assert_eq!(CalendarDate::new(2024, 13, 40), None);
    assert_eq!(CalendarDate::new(2024, 0, 1), None);
    assert_eq!(CalendarDate::new(2024, 1, 0), None);
    assert_eq!(CalendarDate::new(2024, 4, 31), None);
    assert!(CalendarDate::new(2024, 4, 30).is_some());
    assert!(CalendarDate::new(2024, 12, 31).is_some());
    assert_eq!(CalendarDate::new(2024, 12, 32), None);
    assert!(CalendarDate::new(i32::MIN, 1, 1).is_some());
    assert!(CalendarDate::new(i32::MAX, 12, 31).is_some());
}

#[test]
fn every_day_of_eight_centuries_agrees_with_chrono() {
    let mut date = NaiveDate::from_ymd_opt(1600, 1, 1).unwrap();
    let end = NaiveDate::from_ymd_opt(2400, 12, 31).unwrap();
    let mut previous: Option<i64> = None;
    while date <= end {
        let seconds = timestamp(date.year(), date.month(), date.day());
        assert_eq!(seconds, date.and_hms_opt(0, 0, 0).unwrap().and_utc().timestamp());
        assert_eq!(seconds % 86_400, 0);
        if let Some(before) = previous {
            assert_eq!(seconds - before, 86_400);
        }
        previous = Some(seconds);
        date = date.succ_opt().unwrap();
    }
}

#[test]
fn validity_agrees_with_chrono() {
    for year in [-400, -1, 0, 1, 4, 100, 400, 1900, 1970, 2000, 2023, 2024, 2100, 262_142] {
        for month in 0..=13 {
            for day in 0..=32 {
                let ours = CalendarDate::new(year, month, day);
                let theirs = NaiveDate::from_ymd_opt(year, month, day);
                assert_eq!(ours.is_some(), theirs.is_some(), "{}-{}-{}", year, month, day);
                if let (Some(ours), Some(theirs)) = (ours, theirs) {
                    assert_eq!(
                        ours.midnight_timestamp(),
                        theirs.and_hms_opt(0, 0, 0).unwrap().and_utc().timestamp()
                    );
                }
            }
        }
    }
}

#[test]
fn far_years_do_not_overflow() {
    let early = timestamp(i32::MIN, 1, 1);
    let late = timestamp(i32::MAX, 12, 31);
    assert!(early < 0 && late > 0);
    assert_eq!(early % 86_400, 0);
    assert_eq!(late % 86_400, 0);
    // 400 years are 146097 days.
    assert_eq!(
        timestamp(i32::MAX, 12, 31) - timestamp(i32::MAX - 400, 12, 31),
        146_097 * 86_400
    );
    assert_eq!(
        timestamp(i32::MIN + 400, 1, 1) - timestamp(i32::MIN, 1, 1),
        146_097 * 86_400
    );
}
