use employee_report::calendar::Date;
use employee_report::leave::{
    leave_date_or_default, leave_days_of, leave_overlap_days, leaves_are_valid, parse_leave_date,
    LEAVE_DATE_FORMAT,
};
use employee_report::records::Leav;

fn day(year: i32, month: u32, day: u32) -> Date {
    Date::new(year, month, day).unwrap()
}

fn leave(emp_id: i32, from: Date, to: Date) -> Leav {
    Leav { emp_id, leave_id: 1, leave_from: from, leave_to: to, leave_type: String::from("Casual") }
}

#[test]
fn leave_inside_the_month_counts_its_span() {
    let entry = leave(1, day(2024, 6, 10), day(2024, 6, 15));
    assert_eq!(leave_overlap_days(&entry, 2024, 6), 6);
}

#[test]
fn leave_running_past_the_month_is_cut_at_its_last_day() {
    let entry = leave(1, day(2024, 6, 25), day(2024, 7, 5));
    assert_eq!(leave_overlap_days(&entry, 2024, 6), 6);
}

#[test]
fn leave_begun_before_the_month_is_cut_at_its_first_day() {
    let entry = leave(1, day(2024, 5, 20), day(2024, 6, 10));
    assert_eq!(leave_overlap_days(&entry, 2024, 6), 10);
}

#[test]
fn leave_in_another_month_counts_nothing() {
    let entry = leave(1, day(2024, 5, 1), day(2024, 5, 31));
    assert_eq!(leave_overlap_days(&entry, 2024, 6), 0);
}

#[test]
fn leave_of_one_day() {
    let entry = leave(1, day(2024, 6, 30), day(2024, 6, 30));
    assert_eq!(leave_overlap_days(&entry, 2024, 6), 1);
}

#[test]
fn leave_over_the_whole_month_counts_the_days_of_the_month() {
    let exact = leave(1, day(2024, 6, 1), day(2024, 6, 30));
    assert_eq!(leave_overlap_days(&exact, 2024, 6), 30);
    let early = leave(1, day(2024, 1, 15), day(2024, 2, 29));
    assert_eq!(leave_overlap_days(&early, 2024, 2), 29);
    let late = leave(1, day(2023, 2, 1), day(2023, 4, 2));
    assert_eq!(leave_overlap_days(&late, 2023, 2), 28);
    let over_new_year = leave(1, day(2024, 12, 1), day(2025, 1, 10));
    assert_eq!(leave_overlap_days(&over_new_year, 2024, 12), 31);
}

#[test]
fn leave_around_the_month_counts_nothing() {
    let entry = leave(1, day(2024, 4, 1), day(2024, 8, 31));
    assert_eq!(leave_overlap_days(&entry, 2024, 6), 0);
}

#[test]
fn leave_of_the_same_month_in_another_year_counts_nothing() {
    let entry = leave(1, day(2023, 6, 10), day(2023, 6, 15));
    assert_eq!(leave_overlap_days(&entry, 2024, 6), 0);
    let long = leave(1, day(2023, 6, 10), day(2024, 6, 15));
    assert_eq!(leave_overlap_days(&long, 2024, 6), 15);
    assert_eq!(leave_overlap_days(&long, 2023, 6), 21);
}

#[test]
fn leave_that_ends_before_it_starts_counts_nothing() {
    let inside = leave(1, day(2024, 6, 15), day(2024, 6, 10));
    assert_eq!(leave_overlap_days(&inside, 2024, 6), 0);
    let start_in_month = leave(1, day(2024, 6, 15), day(2024, 5, 10));
    assert_eq!(leave_overlap_days(&start_in_month, 2024, 6), 0);
    let end_in_month = leave(1, day(2024, 7, 15), day(2024, 6, 10));
    assert_eq!(leave_overlap_days(&end_in_month, 2024, 6), 0);
    let across_years = leave(1, day(2025, 1, 1), day(2024, 6, 10));
    assert_eq!(leave_overlap_days(&across_years, 2024, 6), 0);
}

#[test]
fn total_adds_up_the_leaves_of_one_employee() {
    let leaves = vec![
        leave(1, day(2024, 6, 10), day(2024, 6, 15)),
        leave(2, day(2024, 6, 1), day(2024, 6, 30)),
        leave(1, day(2024, 6, 25), day(2024, 7, 5)),
        leave(1, day(2024, 5, 20), day(2024, 6, 10)),
        leave(1, day(2024, 5, 1), day(2024, 5, 31)),
    ];
    assert_eq!(leave_days_of(&leaves, 1, 2024, 6), 22);
    assert_eq!(leave_days_of(&leaves, 2, 2024, 6), 30);
    assert_eq!(leave_days_of(&leaves, 3, 2024, 6), 0);
}

#[test]
fn total_of_no_leaves_is_zero() {
    let leaves: Vec<Leav> = Vec::new();
    assert_eq!(leave_days_of(&leaves, 1, 2024, 6), 0);
}

#[test]
fn total_is_never_negative() {
    let leaves = vec![
        leave(1, day(2024, 6, 20), day(2024, 6, 1)),
        leave(1, day(2024, 6, 3), day(2024, 6, 4)),
    ];
    let total = leave_days_of(&leaves, 1, 2024, 6);
    assert!(total >= 0);
    assert_eq!(total, 2);
}

#[test]
fn leave_date_is_read_as_day_month_year() {
    assert_eq!(parse_leave_date("10-06-2024"), Date { year: 2024, month: 6, day: 10 });
    assert_eq!(parse_leave_date("29-02-2024"), Date { year: 2024, month: 2, day: 29 });
    assert_eq!(parse_leave_date("31-12-1999"), Date { year: 1999, month: 12, day: 31 });
    assert_eq!(parse_leave_date("5-06-2024"), Date { year: 2024, month: 6, day: 5 });
}

#[test]
fn unreadable_leave_date_becomes_the_default_date() {
    let default = Date { year: 1970, month: 1, day: 1 };
    assert_eq!(parse_leave_date(""), default);
    assert_eq!(parse_leave_date("soon"), default);
    assert_eq!(parse_leave_date("2024-06-10"), default);
    assert_eq!(parse_leave_date("29-02-2023"), default);
    assert_eq!(parse_leave_date("10-13-2024"), default);
    assert_eq!(parse_leave_date("10/06/2024"), default);
}

#[test]
fn default_date_stands_in_for_a_missing_one() {
    let read = Date { year: 2024, month: 6, day: 10 };
    assert_eq!(leave_date_or_default(Some(read)), read);
    assert_eq!(leave_date_or_default(None), Date { year: 1970, month: 1, day: 1 });
}

#[test]
fn leave_date_format() {
    assert_eq!(LEAVE_DATE_FORMAT, "%e-%m-%Y");
}

#[test]
fn leaves_with_an_end_that_is_no_day_are_told_apart() {
    let good = vec![leave(1, day(2024, 6, 10), day(2024, 6, 15))];
    assert!(leaves_are_valid(&good));
    assert!(leaves_are_valid(&Vec::new()));
    let mut bad = vec![leave(1, day(2024, 6, 10), day(2024, 6, 15))];
    bad.push(leave(1, day(2024, 6, 10), Date { year: 2024, month: 6, day: 31 }));
    assert!(!leaves_are_valid(&bad));
    assert!(bad[0].is_valid());
    assert!(!bad[1].is_valid());
}
