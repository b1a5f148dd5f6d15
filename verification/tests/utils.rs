use hrdf_parser::calendar::{Date, Time};
use hrdf_parser::error::{HrdfError, ParsingError};
use hrdf_parser::models::TimetableMetadataEntry;
use hrdf_parser::storage::ResourceStorage;
use hrdf_parser::utils::{
    add_1_day, count_days_between_two_dates, create_time, create_time_from_value, sub_1_day,
    timetable_end_date, timetable_start_date, AutoIncrement,
};
use rustc_hash::FxHashMap;

fn date(y: i32, m: u32, d: u32) -> Date {
    Date::from_ymd_opt(y, m, d).unwrap()
}

fn time(h: u32, m: u32) -> Time {
    Time { hour: h, minute: m }
}

/// chrono's first and last dates.
const MIN_DATE: Date = Date { year: -262143, month: 1, day: 1 };
const MAX_DATE: Date = Date { year: 262142, month: 12, day: 31 };

#[test]
fn auto_increment_starts_at_zero() {
    let counter = AutoIncrement::new();
    assert_eq!(counter.get(), 0);
}

#[test]
fn auto_increment_next_increments_and_returns_new_value() {
    let mut counter = AutoIncrement::new();
    assert_eq!(counter.next(), 1);
    assert_eq!(counter.next(), 2);
    assert_eq!(counter.next(), 3);
}

#[test]
fn auto_increment_get_does_not_advance() {
    let mut counter = AutoIncrement::new();
    counter.next();
    assert_eq!(counter.get(), 1);
    assert_eq!(counter.get(), 1);
}

#[test]
fn add_1_day_rolls_over_month_and_year() {
    assert_eq!(add_1_day(date(2026, 1, 15)).unwrap(), date(2026, 1, 16));
    assert_eq!(add_1_day(date(2026, 1, 31)).unwrap(), date(2026, 2, 1));
    assert_eq!(add_1_day(date(2026, 12, 31)).unwrap(), date(2027, 1, 1));
}

#[test]
fn add_1_day_handles_leap_day() {
    assert_eq!(add_1_day(date(2024, 2, 28)).unwrap(), date(2024, 2, 29));
    assert_eq!(add_1_day(date(2024, 2, 29)).unwrap(), date(2024, 3, 1));
}

#[test]
fn add_1_day_errors_at_max_date() {
    let date = MAX_DATE;
    assert!(Date::from_ymd_opt(date.year, date.month, date.day).is_some());
    let err = add_1_day(date).unwrap_err();
    assert!(matches!(err, HrdfError::FailedToAddDays(d, 1) if d == date));
}

#[test]
fn sub_1_day_rolls_back_month_and_year() {
    assert_eq!(sub_1_day(date(2026, 3, 1)).unwrap(), date(2026, 2, 28));
    assert_eq!(sub_1_day(date(2026, 1, 1)).unwrap(), date(2025, 12, 31));
}

#[test]
fn sub_1_day_errors_at_min_date() {
    let date = MIN_DATE;
    assert!(Date::from_ymd_opt(date.year, date.month, date.day).is_some());
    let err = sub_1_day(date).unwrap_err();
    assert!(matches!(err, HrdfError::FailedToSubDays(d, 1) if d == date));
}

#[test]
fn count_days_between_two_dates_counts_inclusive() {
    let d = date(2024, 1, 1);
    assert_eq!(count_days_between_two_dates(d, d).unwrap(), 1);

    let end = date(2024, 1, 10);
    assert_eq!(count_days_between_two_dates(d, end).unwrap(), 10);
}

#[test]
fn count_days_between_two_dates_spans_leap_day() {
    let start = date(2024, 2, 27);
    let end = date(2024, 3, 1);
    assert_eq!(count_days_between_two_dates(start, end).unwrap(), 4);
}

#[test]
fn count_days_between_two_dates_errors_when_end_is_before_start() {
    let start = date(2024, 1, 10);
    let end = date(2024, 1, 1);
    assert!(matches!(
        count_days_between_two_dates(start, end),
        Err(HrdfError::OutOfRangeDate(d)) if d == end
    ));
}

#[test]
fn create_time_builds_valid_time() {
    assert_eq!(create_time(8, 30).unwrap(), time(8, 30));
    assert_eq!(create_time(23, 59).unwrap(), time(23, 59));
}

#[test]
fn create_time_rejects_invalid_input() {
    assert!(matches!(
        create_time(24, 0).unwrap_err(),
        ParsingError::UnableToBuildTime(24, 0, 0)
    ));
    assert!(matches!(
        create_time(0, 60).unwrap_err(),
        ParsingError::UnableToBuildTime(0, 60, 0)
    ));
}

#[test]
fn create_time_from_value_splits_hhmm() {
    assert_eq!(create_time_from_value(830).unwrap(), time(8, 30));
    assert_eq!(create_time_from_value(2359).unwrap(), time(23, 59));
}

#[test]
fn timetable_start_date_and_end_date_read_metadata() {
    let mut data = FxHashMap::default();
    data.insert(
        1,
        TimetableMetadataEntry::new(1, "start_date".to_string(), "2024-12-15".to_string()),
    );
    data.insert(
        2,
        TimetableMetadataEntry::new(2, "end_date".to_string(), "2025-12-13".to_string()),
    );
    let storage = ResourceStorage::new(data);

    assert_eq!(timetable_start_date(&storage).unwrap(), date(2024, 12, 15));
    assert_eq!(timetable_end_date(&storage).unwrap(), date(2025, 12, 13));
}

#[test]
fn timetable_start_date_and_end_date_error_when_missing() {
    let storage = ResourceStorage::<TimetableMetadataEntry>::new(FxHashMap::default());

    assert!(matches!(
        timetable_start_date(&storage).unwrap_err(),
        HrdfError::MissingStartDate
    ));
    assert!(matches!(
        timetable_end_date(&storage).unwrap_err(),
        HrdfError::MissingEndDate
    ));
}

#[test]
fn dates_outside_the_calendar_do_not_exist() {
    assert!(Date::from_ymd_opt(2023, 2, 29).is_none());
    assert!(Date::from_ymd_opt(2024, 2, 29).is_some());
    assert!(Date::from_ymd_opt(2024, 13, 1).is_none());
    assert!(Date::from_ymd_opt(262143, 1, 1).is_none());
}

#[test]
fn one_day_there_and_back() {
    for d in [date(2024, 2, 28), date(2024, 2, 29), date(2023, 12, 31), date(2025, 1, 1), date(1900, 3, 1)] {
        assert_eq!(sub_1_day(add_1_day(d).unwrap()).unwrap(), d);
        assert_eq!(add_1_day(sub_1_day(d).unwrap()).unwrap(), d);
    }
}
