use employee_report::records::{SalaryStatus, Salent};
use employee_report::salary::{date_in_month, is_salary_credited, month_pattern};

fn entry(emp_id: i32, sal_date: &str) -> Salent {
    Salent {
        emp_id,
        sal_id: 7,
        sal_date: String::from(sal_date),
        sal_bits: 45000.5f32.to_bits(),
        status: String::from("Paid"),
    }
}

#[test]
fn pattern_of_each_month() {
    let expected = [
        "-01-", "-02-", "-03-", "-04-", "-05-", "-06-", "-07-", "-08-", "-09-", "-10-", "-11-",
        "-12-",
    ];
    for month in 1..=12u32 {
        assert_eq!(month_pattern(month), expected[(month - 1) as usize]);
    }
}

#[test]
fn date_text_is_searched_for_the_month() {
    assert!(date_in_month("2024-06-30", 6));
    assert!(date_in_month("30-06-2024", 6));
    assert!(!date_in_month("2024-06-30", 7));
    assert!(!date_in_month("2024/06/30", 6));
    assert!(!date_in_month("2024-6-30", 6));
    assert!(!date_in_month("", 6));
    assert!(!date_in_month("-06", 6));
    assert!(date_in_month("-06-", 6));
}

#[test]
fn no_entry_means_not_credited() {
    let entries: Vec<Salent> = Vec::new();
    assert!(!is_salary_credited(&entries, 1, 6));
}

#[test]
fn no_entry_of_the_month_means_not_credited() {
    let entries = vec![entry(1, "2024-05-31"), entry(2, "2024-06-30"), entry(1, "2024-07-31")];
    assert!(!is_salary_credited(&entries, 1, 6));
}

#[test]
fn one_entry_of_the_month_credits() {
    let entries = vec![entry(1, "2024-05-31"), entry(1, "2024-06-30")];
    assert!(is_salary_credited(&entries, 1, 6));
}

#[test]
fn further_entries_change_nothing() {
    let mut entries = vec![entry(1, "2024-06-30")];
    assert!(is_salary_credited(&entries, 1, 6));
    entries.push(entry(1, "2024-06-15"));
    assert!(is_salary_credited(&entries, 1, 6));
    entries.push(entry(1, "2024-01-15"));
    entries.push(entry(3, "2024-06-15"));
    assert!(is_salary_credited(&entries, 1, 6));
}

#[test]
fn the_year_of_an_entry_is_not_looked_at() {
    let entries = vec![entry(1, "2019-06-30")];
    assert!(is_salary_credited(&entries, 1, 6));
}

#[test]
fn status_and_amount_do_not_matter() {
    let mut unpaid = entry(1, "2024-06-30");
    unpaid.status = String::from("Pending");
    unpaid.sal_bits = 0;
    assert!(is_salary_credited(&vec![unpaid], 1, 6));
}

#[test]
fn status_labels() {
    assert_eq!(SalaryStatus::from_credited(true), SalaryStatus::Credited);
    assert_eq!(SalaryStatus::from_credited(false), SalaryStatus::NotCredited);
    assert_eq!(SalaryStatus::Credited.label(), "Credited");
    assert_eq!(SalaryStatus::NotCredited.label(), "Not Credited");
}
