//! The report as text: a header line, then one line per row, the fields of
//! a line separated by `~#~`.

use crate::records::OutputRow;
use crate::text::{decimal, decimal_text};
use vstd::prelude::*;

verus! {

/// The text between two fields of a line.
pub const SEPARATOR: &'static str = "~#~";

/// The first line of a report, which names the fields.
pub const HEADER: &'static str =
    "Emp ID~#~Emp Name~#~Dept Title~#~Mobile No~#~Email~#~Salary Status~#~On Leave";

/// The line of a row: identifier, name, department title, mobile number,
/// email, salary status and days of leave.
pub open spec fn row_text(row: OutputRow) -> Seq<char> {
    decimal(row.emp_id as int) + SEPARATOR@ + row.emp_name@ + SEPARATOR@ + row.dept_title@
        + SEPARATOR@ + row.mobile_no@ + SEPARATOR@ + row.email@ + SEPARATOR@
        + row.salary_status.spec_label() + SEPARATOR@ + decimal(row.leave_days as int)
}

impl OutputRow {
    /// The row as a line of the report, without a line end.
    pub fn to_line(&self) -> (line: String)
        ensures
            line@ == row_text(*self),
    {
        let mut line = decimal_text(self.emp_id as i64);
        line.append(SEPARATOR);
        line.append(self.emp_name.as_str());
        line.append(SEPARATOR);
        line.append(self.dept_title.as_str());
        line.append(SEPARATOR);
        line.append(self.mobile_no.as_str());
        line.append(SEPARATOR);
        line.append(self.email.as_str());
        line.append(SEPARATOR);
        line.append(self.salary_status.label());
        line.append(SEPARATOR);
        let days = decimal_text(self.leave_days);
        line.append(days.as_str());
        line
    }
}

/// Whether `lines` is the text of the report `rows`: the header, then the
/// line of each row in the order of the rows.
pub open spec fn is_report_text(lines: Seq<String>, rows: Seq<OutputRow>) -> bool {
    &&& lines.len() == rows.len() + 1
    &&& lines[0]@ == HEADER@
    &&& forall|i: int| 0 <= i < rows.len() ==> (#[trigger] lines[i + 1])@ == row_text(rows[i])
}

/// The lines of a report: the header, then one line per row.
pub fn report_lines(rows: &Vec<OutputRow>) -> (lines: Vec<String>)
    ensures
        is_report_text(lines@, rows@),
{
    let mut lines: Vec<String> = Vec::new();
    lines.push(HEADER.to_owned());
    let mut i: usize = 0;
    while i < rows.len()
        invariant
            i <= rows.len(),
            lines.len() == i + 1,
            lines@[0]@ == HEADER@,
            forall|j: int| 0 <= j < i ==> (#[trigger] lines@[j + 1])@ == row_text(rows@[j]),
        decreases rows.len() - i,
    {
        let line = rows[i].to_line();
        lines.push(line);
        i += 1;
    }
    lines
}

} // verus!
