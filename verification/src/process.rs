//! The report: one row per employee, in the order of the employees.
//!
//! Departments, salary entries and leave entries that name no employee of
//! the input are never looked at. An employee without a department, without
//! a salary entry of the month or without leave gets the title `"Unknown"`,
//! the status `NotCredited` and zero days.

use crate::calendar::{is_reference_month, valid_reference_month};
use crate::departments::{
    distinct_departments, lemma_title_ignores_order, title_of, DepartmentIndex,
};
use crate::leave::{
    all_leaves_wf, leave_days_of, leaves_are_valid, lemma_total_leave_days_ignores_order,
    total_leave_days, MAX_LEAVE_ENTRIES,
};
use crate::records::{Dept, Emp, Leav, OutputRow, SalaryStatus, Salent};
use crate::salary::{credited, is_salary_credited, lemma_credit_ignores_order};
use vstd::prelude::*;

verus! {

/// Whether `row` is the report row of the employee `emp`.
pub open spec fn is_row_of(
    row: OutputRow,
    emp: Emp,
    depts: Seq<Dept>,
    sals: Seq<Salent>,
    leaves: Seq<Leav>,
    year: int,
    month: int,
) -> bool {
    &&& row.emp_id == emp.emp_id
    &&& row.emp_name@ == emp.emp_name@
    &&& row.dept_title@ == title_of(depts, emp.dept_id)
    &&& row.mobile_no@ == emp.mobile_no@
    &&& row.email@ == emp.email@
    &&& row.salary_status == SalaryStatus::of(credited(sals, emp.emp_id, month))
    &&& row.leave_days == total_leave_days(leaves, emp.emp_id, year, month)
}

/// Whether `rows` is the report of the employees `emps`: as many rows as
/// employees, the row at each place being that of the employee at that
/// place.
pub open spec fn is_report(
    rows: Seq<OutputRow>,
    emps: Seq<Emp>,
    depts: Seq<Dept>,
    sals: Seq<Salent>,
    leaves: Seq<Leav>,
    year: int,
    month: int,
) -> bool {
    &&& rows.len() == emps.len()
    &&& forall|i: int|
        0 <= i < emps.len() ==> is_row_of(#[trigger] rows[i], emps[i], depts, sals, leaves, year, month)
}

/// The report row of one employee.
pub fn report_row(
    emp: &Emp,
    index: &DepartmentIndex,
    sal_data: &Vec<Salent>,
    leave_data: &Vec<Leav>,
    year: i32,
    month: u32,
) -> (row: OutputRow)
    requires
        valid_reference_month(year as int, month as int),
        all_leaves_wf(leave_data@),
        leave_data.len() <= MAX_LEAVE_ENTRIES,
    ensures
        row.emp_id == emp.emp_id,
        row.emp_name@ == emp.emp_name@,
        row.dept_title@ == index.resolve(emp.dept_id),
        row.mobile_no@ == emp.mobile_no@,
        row.email@ == emp.email@,
        row.salary_status == SalaryStatus::of(credited(sal_data@, emp.emp_id, month as int)),
        row.leave_days == total_leave_days(leave_data@, emp.emp_id, year as int, month as int),
{
    let dept_title = index.title(emp.dept_id);
    let salary_status = SalaryStatus::from_credited(is_salary_credited(sal_data, emp.emp_id, month));
    let leave_days = leave_days_of(leave_data, emp.emp_id, year, month);
    OutputRow {
        emp_id: emp.emp_id,
        emp_name: emp.emp_name.clone(),
        dept_title,
        mobile_no: emp.mobile_no.clone(),
        email: emp.email.clone(),
        salary_status,
        leave_days,
    }
}

/// The report for the reference month (`year`, `month`): for each employee,
/// in input order, the department title, the salary status and the total of
/// leave days.
pub fn generate_output(
    emp_data: &Vec<Emp>,
    dept_data: &Vec<Dept>,
    sal_data: &Vec<Salent>,
    leave_data: &Vec<Leav>,
    year: i32,
    month: u32,
) -> (rows: Vec<OutputRow>)
    requires
        valid_reference_month(year as int, month as int),
        all_leaves_wf(leave_data@),
        leave_data.len() <= MAX_LEAVE_ENTRIES,
    ensures
        is_report(rows@, emp_data@, dept_data@, sal_data@, leave_data@, year as int, month as int),
{
    let index = DepartmentIndex::build(dept_data);
    let mut rows: Vec<OutputRow> = Vec::new();
    let mut i: usize = 0;
    while i < emp_data.len()
        invariant
            i <= emp_data.len(),
            rows.len() == i,
            valid_reference_month(year as int, month as int),
            all_leaves_wf(leave_data@),
            leave_data.len() <= MAX_LEAVE_ENTRIES,
            forall|id: i32| #[trigger] index.resolve(id) == title_of(dept_data@, id),
            forall|j: int|
                0 <= j < i ==> is_row_of(
                    #[trigger] rows@[j],
                    emp_data@[j],
                    dept_data@,
                    sal_data@,
                    leave_data@,
                    year as int,
                    month as int,
                ),
        decreases emp_data.len() - i,
    {
        let row = report_row(&emp_data[i], &index, sal_data, leave_data, year, month);
        rows.push(row);
        i += 1;
    }
    rows
}

/// Whether a report can be made for the reference month from these leaves:
/// the month is one of the calendar, every leave has two days of the
/// calendar as its ends, and the leaves are few enough to be summed up.
pub open spec fn can_report(leaves: Seq<Leav>, year: int, month: int) -> bool {
    &&& valid_reference_month(year, month)
    &&& all_leaves_wf(leaves)
    &&& leaves.len() <= MAX_LEAVE_ENTRIES
}

/// The report for the reference month, or `None` where none can be made:
/// for a month outside the calendar, and for leaves with an end that is no
/// day of the calendar.
pub fn generate_checked_output(
    emp_data: &Vec<Emp>,
    dept_data: &Vec<Dept>,
    sal_data: &Vec<Salent>,
    leave_data: &Vec<Leav>,
    year: i32,
    month: u32,
) -> (report: Option<Vec<OutputRow>>)
    ensures
        report.is_some() == can_report(leave_data@, year as int, month as int),
        report matches Some(rows) ==> is_report(
            rows@,
            emp_data@,
            dept_data@,
            sal_data@,
            leave_data@,
            year as int,
            month as int,
        ),
{
    if is_reference_month(year, month) && leaves_are_valid(leave_data) {
        Some(generate_output(emp_data, dept_data, sal_data, leave_data, year, month))
    } else {
        None
    }
}

/// The rows of a report follow the employees, whatever departments, salary
/// entries and leave entries it was made from and in whatever order these
/// were given: two reports of the same employees name the same employee at
/// each place.
pub proof fn lemma_row_order_follows_employees(
    emps: Seq<Emp>,
    rows_a: Seq<OutputRow>,
    depts_a: Seq<Dept>,
    sals_a: Seq<Salent>,
    leaves_a: Seq<Leav>,
    rows_b: Seq<OutputRow>,
    depts_b: Seq<Dept>,
    sals_b: Seq<Salent>,
    leaves_b: Seq<Leav>,
    year: int,
    month: int,
)
    requires
        is_report(rows_a, emps, depts_a, sals_a, leaves_a, year, month),
        is_report(rows_b, emps, depts_b, sals_b, leaves_b, year, month),
    ensures
        rows_a.len() == emps.len(),
        rows_b.len() == emps.len(),
        forall|i: int|
            0 <= i < emps.len() ==> {
                &&& (#[trigger] rows_a[i]).emp_id == emps[i].emp_id
                &&& (#[trigger] rows_b[i]).emp_id == emps[i].emp_id
                &&& rows_a[i].emp_name@ == rows_b[i].emp_name@
                &&& rows_a[i].mobile_no@ == rows_b[i].mobile_no@
                &&& rows_a[i].email@ == rows_b[i].email@
            },
{
}

/// Whether two rows show the same values.
pub open spec fn same_row(a: OutputRow, b: OutputRow) -> bool {
    &&& a.emp_id == b.emp_id
    &&& a.emp_name@ == b.emp_name@
    &&& a.dept_title@ == b.dept_title@
    &&& a.mobile_no@ == b.mobile_no@
    &&& a.email@ == b.email@
    &&& a.salary_status == b.salary_status
    &&& a.leave_days == b.leave_days
}

/// The order of departments, salary entries and leave entries does not
/// change a report: made from the same employees and from the same
/// departments, salary entries and leave entries in another order, it shows
/// the same values at each place. Departments may be reordered where no two
/// of them share an identifier.
pub proof fn lemma_report_ignores_input_order(
    emps: Seq<Emp>,
    rows_a: Seq<OutputRow>,
    depts_a: Seq<Dept>,
    sals_a: Seq<Salent>,
    leaves_a: Seq<Leav>,
    rows_b: Seq<OutputRow>,
    depts_b: Seq<Dept>,
    sals_b: Seq<Salent>,
    leaves_b: Seq<Leav>,
    year: int,
    month: int,
)
    requires
        is_report(rows_a, emps, depts_a, sals_a, leaves_a, year, month),
        is_report(rows_b, emps, depts_b, sals_b, leaves_b, year, month),
        depts_a.to_multiset() == depts_b.to_multiset(),
        distinct_departments(depts_a),
        sals_a.to_multiset() == sals_b.to_multiset(),
        leaves_a.to_multiset() == leaves_b.to_multiset(),
    ensures
        rows_a.len() == rows_b.len(),
        forall|i: int| 0 <= i < rows_a.len() ==> same_row(#[trigger] rows_a[i], rows_b[i]),
{
    assert forall|i: int| 0 <= i < rows_a.len() implies same_row(#[trigger] rows_a[i], rows_b[i]) by {
        let emp = emps[i];
        assert(is_row_of(rows_a[i], emp, depts_a, sals_a, leaves_a, year, month));
        assert(is_row_of(rows_b[i], emp, depts_b, sals_b, leaves_b, year, month));
        lemma_title_ignores_order(depts_a, depts_b, emp.dept_id);
        lemma_credit_ignores_order(sals_a, sals_b, emp.emp_id, month);
        lemma_total_leave_days_ignores_order(leaves_a, leaves_b, emp.emp_id, year, month);
    }
}

} // verus!
