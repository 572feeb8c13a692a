//! The record types that a report is made from, and the row it is made of.

use crate::calendar::Date;
use vstd::prelude::*;

verus! {

/// An employee. `dept_id` need not name an existing department.
#[derive(Clone, Debug)]
pub struct Emp {
    pub emp_id: i32,
    pub emp_name: String,
    pub dept_id: i32,
    pub mobile_no: String,
    pub email: String,
}

/// A department. `dept_strength` is carried along and never read.
#[derive(Clone, Debug)]
pub struct Dept {
    pub dept_id: i32,
    pub dept_title: String,
    pub dept_strength: i32,
}

/// One salary entry of an employee; an employee may have several.
///
/// `sal_date` is free text. `sal_bits` holds the amount as the bit pattern of
/// a single-precision number; like `sal_id` and `status` it is carried
/// along and never read.
#[derive(Clone, Debug)]
pub struct Salent {
    pub emp_id: i32,
    pub sal_id: i32,
    pub sal_date: String,
    pub sal_bits: u32,
    pub status: String,
}

/// One leave of an employee, from `leave_from` to `leave_to`, both included.
#[derive(Clone, Debug)]
pub struct Leav {
    pub emp_id: i32,
    pub leave_id: i32,
    pub leave_from: Date,
    pub leave_to: Date,
    pub leave_type: String,
}

impl Leav {
    /// Both ends of the leave are days of the calendar.
    pub open spec fn wf(&self) -> bool {
        self.leave_from.wf() && self.leave_to.wf()
    }

    /// Whether both ends of the leave are days of the calendar.
    pub fn is_valid(&self) -> (valid: bool)
        ensures
            valid == self.wf(),
    {
        self.leave_from.is_valid() && self.leave_to.is_valid()
    }
}

/// Whether a salary was credited in the reference month.
#[derive(Clone, Copy, Debug, PartialEq, Eq, Structural)]
pub enum SalaryStatus {
    Credited,
    NotCredited,
}

impl SalaryStatus {
    /// The status that stands for a credit signal.
    pub open spec fn of(credited: bool) -> SalaryStatus {
        if credited {
            SalaryStatus::Credited
        } else {
            SalaryStatus::NotCredited
        }
    }

    /// The text of a status as a report shows it.
    pub open spec fn spec_label(&self) -> Seq<char> {
        match self {
            SalaryStatus::Credited => "Credited"@,
            SalaryStatus::NotCredited => "Not Credited"@,
        }
    }

    /// The status that stands for a credit signal.
    pub fn from_credited(credited: bool) -> (status: SalaryStatus)
        ensures
            status == SalaryStatus::of(credited),
    {
        if credited {
            SalaryStatus::Credited
        } else {
            SalaryStatus::NotCredited
        }
    }

    /// `"Credited"` or `"Not Credited"`.
    pub fn label(&self) -> (text: &'static str)
        ensures
            text@ == self.spec_label(),
    {
        match self {
            SalaryStatus::Credited => "Credited",
            SalaryStatus::NotCredited => "Not Credited",
        }
    }
}

/// One row of the report: an employee with the title of the department, the
/// salary status and the days of leave in the reference month.
#[derive(Clone, Debug)]
pub struct OutputRow {
    pub emp_id: i32,
    pub emp_name: String,
    pub dept_title: String,
    pub mobile_no: String,
    pub email: String,
    pub salary_status: SalaryStatus,
    pub leave_days: i64,
}

} // verus!
