use employee_report::calendar::{is_reference_month, max_days_in_month, Date, MAX_YEAR, MIN_YEAR};

#[test]
fn february_of_a_leap_year_has_29_days() {
    assert_eq!(max_days_in_month(2024, 2), 29);
}

#[test]
fn february_of_a_common_year_has_28_days() {
    assert_eq!(max_days_in_month(2023, 2), 28);
}

#[test]
fn december_wraps_into_the_next_year() {
    assert_eq!(max_days_in_month(2024, 12), 31);
}

#[test]
fn every_month_of_a_common_year() {
    let expected: [u32; 12] = [31, 28, 31, 30, 31, 30, 31, 31, 30, 31, 30, 31];
    for month in 1..=12u32 {
        assert_eq!(max_days_in_month(2023, month), expected[(month - 1) as usize]);
    }
}

#[test]
fn century_years_follow_the_gregorian_rule() {
    assert_eq!(max_days_in_month(1900, 2), 28);
    assert_eq!(max_days_in_month(2000, 2), 29);
    assert_eq!(max_days_in_month(2100, 2), 28);
}

#[test]
fn year_zero_and_negative_years() {
    assert_eq!(max_days_in_month(0, 2), 29);
    assert_eq!(max_days_in_month(-4, 2), 29);
    assert_eq!(max_days_in_month(-1, 2), 28);
    assert_eq!(max_days_in_month(-100, 2), 28);
}

#[test]
fn months_at_the_ends_of_the_calendar() {
    assert_eq!(max_days_in_month(MIN_YEAR, 1), 31);
    assert_eq!(max_days_in_month(MIN_YEAR, 12), 31);
    assert_eq!(max_days_in_month(MAX_YEAR, 11), 30);
    assert_eq!(max_days_in_month(MAX_YEAR - 1, 12), 31);
}

#[test]
fn new_accepts_existing_days() {
    assert_eq!(Date::new(2024, 2, 29), Some(Date { year: 2024, month: 2, day: 29 }));
    assert_eq!(Date::new(2024, 6, 30), Some(Date { year: 2024, month: 6, day: 30 }));
    assert_eq!(Date::new(2024, 12, 31), Some(Date { year: 2024, month: 12, day: 31 }));
    assert_eq!(Date::new(1970, 1, 1), Some(Date { year: 1970, month: 1, day: 1 }));
}

#[test]
fn new_rejects_days_that_do_not_exist() {
    assert_eq!(Date::new(2023, 2, 29), None);
    assert_eq!(Date::new(2024, 2, 30), None);
    assert_eq!(Date::new(2024, 6, 31), None);
    assert_eq!(Date::new(2024, 12, 32), None);
    assert_eq!(Date::new(2024, 1, 0), None);
    assert_eq!(Date::new(2024, 0, 1), None);
    assert_eq!(Date::new(2024, 13, 1), None);
}

#[test]
fn new_keeps_to_the_range_of_the_calendar() {
    assert_eq!(Date::new(MAX_YEAR, 12, 31), Some(Date { year: MAX_YEAR, month: 12, day: 31 }));
    assert_eq!(Date::new(MIN_YEAR, 1, 1), Some(Date { year: MIN_YEAR, month: 1, day: 1 }));
    assert_eq!(Date::new(MAX_YEAR + 1, 1, 1), None);
    assert_eq!(Date::new(MIN_YEAR - 1, 12, 31), None);
    assert_eq!(Date::new(400000, 1, 1), None);
}

#[test]
fn first_and_last_day_of_a_month() {
    assert_eq!(Date::first_of_month(2024, 6), Date { year: 2024, month: 6, day: 1 });
    assert_eq!(Date::last_of_month(2024, 6), Date { year: 2024, month: 6, day: 30 });
    assert_eq!(Date::last_of_month(2024, 2), Date { year: 2024, month: 2, day: 29 });
}

#[test]
fn validity_of_a_date_written_by_fields() {
    assert!(Date { year: 2024, month: 2, day: 29 }.is_valid());
    assert!(!Date { year: 2023, month: 2, day: 29 }.is_valid());
    assert!(!Date { year: 2024, month: 13, day: 1 }.is_valid());
    assert!(!Date { year: 2024, month: 4, day: 31 }.is_valid());
    assert!(!Date { year: 2024, month: 4, day: 0 }.is_valid());
    assert!(Date { year: MAX_YEAR, month: 12, day: 31 }.is_valid());
}

#[test]
fn reference_months() {
    assert!(is_reference_month(2024, 6));
    assert!(is_reference_month(2024, 12));
    assert!(is_reference_month(MIN_YEAR, 1));
    assert!(is_reference_month(MAX_YEAR, 11));
    assert!(!is_reference_month(MAX_YEAR, 12));
    assert!(!is_reference_month(2024, 0));
    assert!(!is_reference_month(2024, 13));
    assert!(!is_reference_month(MAX_YEAR + 1, 1));
    assert!(!is_reference_month(MIN_YEAR - 1, 1));
}
