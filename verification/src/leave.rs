//! The leave-overlap calculation: how many days of a leave fall into the
//! reference month.
//!
//! A date falls in the reference month when its year and its month are those
//! of the reference month. A leave is counted by its two ends alone:
//!
//! - both ends in the month: the days from start to end;
//! - only the start in the month: the days from start to the month's last day;
//! - only the end in the month: the days from the month's first day to end;
//! - neither end in the month: zero, also where the leave begins before the
//!   month and ends after it.
//!
//! A leave that ends before it starts counts zero days, wherever its ends
//! lie. Every count is therefore between 0 and 31.

use crate::calendar::{
    days_between, days_in_month, parse_date, parsed_date, valid_reference_month, Date,
};
use crate::records::Leav;
use vstd::prelude::*;

verus! {

/// The largest number of leave entries whose days can be summed up without
/// leaving the range of a 64-bit total.
pub const MAX_LEAVE_ENTRIES: u64 = 0x0400_0000_0000_0000;

/// How the ends of a leave are written: day, month and year with hyphens
/// between them, as in `10-06-2024`.
pub const LEAVE_DATE_FORMAT: &'static str = "%e-%m-%Y";

/// The date that stands for an end of a leave that could not be read.
pub open spec fn default_leave_date() -> Date {
    Date { year: 1970, month: 1, day: 1 }
}

/// The date that was read, or the default date where none was.
pub open spec fn date_or_default(parsed: Option<Date>) -> Date {
    match parsed {
        Some(date) => date,
        None => default_leave_date(),
    }
}

/// The date that was read, or the default date where none was.
pub fn leave_date_or_default(parsed: Option<Date>) -> (date: Date)
    ensures
        date == date_or_default(parsed),
        (parsed matches Some(d) ==> d.wf()) ==> date.wf(),
{
    match parsed {
        Some(date) => date,
        None => Date { year: 1970, month: 1, day: 1 },
    }
}

/// Reads an end of a leave from its text. A text that holds no date in the
/// form of `LEAVE_DATE_FORMAT` gives the default date, 1 January 1970.
pub fn parse_leave_date(text: &str) -> (date: Date)
    ensures
        date == date_or_default(parsed_date(text@, LEAVE_DATE_FORMAT@)),
        date.wf(),
{
    leave_date_or_default(parse_date(text, LEAVE_DATE_FORMAT))
}

/// The days from `from` to `to`, both included.
pub open spec fn inclusive_days(from: Date, to: Date) -> int {
    to.day_number() - from.day_number() + 1
}

/// The first day of a month.
pub open spec fn first_day(year: int, month: int) -> Date {
    Date { year: year as i32, month: month as u32, day: 1 }
}

/// The last day of a month.
pub open spec fn last_day(year: int, month: int) -> Date {
    Date { year: year as i32, month: month as u32, day: days_in_month(year, month) as u32 }
}

/// The days of the leave from `from` to `to` that are counted for the
/// reference month.
pub open spec fn overlap_days(from: Date, to: Date, year: int, month: int) -> int {
    if to.day_number() < from.day_number() {
        0
    } else if from.in_month(year, month) && to.in_month(year, month) {
        inclusive_days(from, to)
    } else if from.in_month(year, month) {
        inclusive_days(from, last_day(year, month))
    } else if to.in_month(year, month) {
        inclusive_days(first_day(year, month), to)
    } else {
        0
    }
}

/// The days that `leave` adds to the total of the employee `emp_id`.
pub open spec fn leave_share(leave: Leav, emp_id: i32, year: int, month: int) -> int {
    if leave.emp_id == emp_id {
        overlap_days(leave.leave_from, leave.leave_to, year, month)
    } else {
        0
    }
}

/// The sum of the counted days over all leaves of the employee `emp_id`.
pub open spec fn total_leave_days(leaves: Seq<Leav>, emp_id: i32, year: int, month: int) -> int
    decreases leaves.len(),
{
    if leaves.len() == 0 {
        0
    } else {
        total_leave_days(leaves.drop_last(), emp_id, year, month) + leave_share(
            leaves.last(),
            emp_id,
            year,
            month,
        )
    }
}

/// Whether every leave of `leaves` has two days of the calendar as its ends.
pub open spec fn all_leaves_wf(leaves: Seq<Leav>) -> bool {
    forall|i: int| 0 <= i < leaves.len() ==> (#[trigger] leaves[i]).wf()
}

/// Whether every leave of `leave_data` has two days of the calendar as its
/// ends, and the leaves are few enough to be summed up.
pub fn leaves_are_valid(leave_data: &Vec<Leav>) -> (valid: bool)
    ensures
        valid == (all_leaves_wf(leave_data@) && leave_data.len() <= MAX_LEAVE_ENTRIES),
{
    if leave_data.len() as u64 > MAX_LEAVE_ENTRIES {
        return false;
    }
    let mut i: usize = 0;
    while i < leave_data.len()
        invariant
            i <= leave_data.len(),
            forall|j: int| 0 <= j < i ==> (#[trigger] leave_data@[j]).wf(),
        decreases leave_data.len() - i,
    {
        if !leave_data[i].is_valid() {
            return false;
        }
        i += 1;
    }
    true
}

/// The days from `from` to `to`, both included, for two days of one month.
fn count_inclusive(from: Date, to: Date) -> (days: i64)
    requires
        from.wf(),
        to.wf(),
        from.year == to.year,
        from.month == to.month,
    ensures
        days == inclusive_days(from, to),
        days == to.day - from.day + 1,
{
    days_between(from, to) + 1
}

/// The number of days of `leave` that are counted for the reference month.
pub fn leave_overlap_days(leave: &Leav, year: i32, month: u32) -> (days: i64)
    requires
        leave.wf(),
        valid_reference_month(year as int, month as int),
    ensures
        days == overlap_days(leave.leave_from, leave.leave_to, year as int, month as int),
        0 <= days <= 31,
{
    let start_in_month = leave.leave_from.year == year && leave.leave_from.month == month;
    let end_in_month = leave.leave_to.year == year && leave.leave_to.month == month;
    if days_between(leave.leave_from, leave.leave_to) < 0 {
        0
    } else if start_in_month && end_in_month {
        count_inclusive(leave.leave_from, leave.leave_to)
    } else if start_in_month {
        count_inclusive(leave.leave_from, Date::last_of_month(year, month))
    } else if end_in_month {
        count_inclusive(Date::first_of_month(year, month), leave.leave_to)
    } else {
        0
    }
}

/// The total of the counted days over all leaves of the employee `emp_id`.
pub fn leave_days_of(leave_data: &Vec<Leav>, emp_id: i32, year: i32, month: u32) -> (total: i64)
    requires
        all_leaves_wf(leave_data@),
        valid_reference_month(year as int, month as int),
        leave_data.len() <= MAX_LEAVE_ENTRIES,
    ensures
        total == total_leave_days(leave_data@, emp_id, year as int, month as int),
        0 <= total <= 31 * leave_data.len(),
{
    let mut total: i64 = 0;
    let mut i: usize = 0;
    while i < leave_data.len()
        invariant
            i <= leave_data.len(),
            leave_data.len() <= MAX_LEAVE_ENTRIES,
            all_leaves_wf(leave_data@),
            valid_reference_month(year as int, month as int),
            total == total_leave_days(
                leave_data@.take(i as int),
                emp_id,
                year as int,
                month as int,
            ),
            0 <= total <= 31 * i,
        decreases leave_data.len() - i,
    {
        let leave = &leave_data[i];
        proof {
            assert(leave_data@.take(i + 1).drop_last() =~= leave_data@.take(i as int));
            assert(leave_data@.take(i + 1).last() == leave_data@[i as int]);
        }
        if leave.emp_id == emp_id {
            total = total + leave_overlap_days(leave, year, month);
        }
        i += 1;
    }
    proof {
        assert(leave_data@.take(i as int) =~= leave_data@);
    }
    total
}

/// No leave counts a negative number of days, and none more than 31.
pub proof fn lemma_overlap_days_bounds(from: Date, to: Date, year: int, month: int)
    requires
        from.wf(),
        to.wf(),
        valid_reference_month(year, month),
    ensures
        0 <= overlap_days(from, to, year, month) <= days_in_month(year, month) <= 31,
{
}

/// The total of an employee's leave days is never negative.
pub proof fn lemma_total_leave_days_non_negative(
    leaves: Seq<Leav>,
    emp_id: i32,
    year: int,
    month: int,
)
    requires
        all_leaves_wf(leaves),
        valid_reference_month(year, month),
    ensures
        0 <= total_leave_days(leaves, emp_id, year, month),
    decreases leaves.len(),
{
    if leaves.len() > 0 {
        let last = leaves.last();
        assert(last.wf());
        lemma_overlap_days_bounds(last.leave_from, last.leave_to, year, month);
        assert forall|i: int| 0 <= i < leaves.drop_last().len() implies (
        #[trigger] leaves.drop_last()[i]).wf() by {
            assert(leaves[i].wf());
        }
        lemma_total_leave_days_non_negative(leaves.drop_last(), emp_id, year, month);
    }
}

/// A leave that lies entirely outside the reference month, ending before the
/// month's first day or starting after its last day, counts zero days.
pub proof fn lemma_leave_outside_month_counts_zero(from: Date, to: Date, year: int, month: int)
    requires
        from.wf(),
        to.wf(),
        valid_reference_month(year, month),
        to.day_number() < first_day(year, month).day_number() || last_day(
            year,
            month,
        ).day_number() < from.day_number(),
    ensures
        overlap_days(from, to, year, month) == 0,
{
}

/// A leave that covers the whole reference month counts exactly the days of
/// that month, provided that one of its ends lies in the month. (A leave
/// that begins before the month and ends after it is counted by neither end
/// and counts zero days.)
pub proof fn lemma_leave_covering_month_counts_whole_month(
    from: Date,
    to: Date,
    year: int,
    month: int,
)
    requires
        from.wf(),
        to.wf(),
        valid_reference_month(year, month),
        from.day_number() <= first_day(year, month).day_number(),
        last_day(year, month).day_number() <= to.day_number(),
        from.in_month(year, month) || to.in_month(year, month),
    ensures
        overlap_days(from, to, year, month) == days_in_month(year, month),
{
}

/// A leave that begins before the reference month and ends after it, with
/// neither end in the month, counts zero days.
pub proof fn lemma_leave_around_month_counts_zero(from: Date, to: Date, year: int, month: int)
    requires
        !from.in_month(year, month),
        !to.in_month(year, month),
    ensures
        overlap_days(from, to, year, month) == 0,
{
}

/// The total is the share of any one leave plus the total of the others.
pub proof fn lemma_total_leave_days_remove(
    leaves: Seq<Leav>,
    i: int,
    emp_id: i32,
    year: int,
    month: int,
)
    requires
        0 <= i < leaves.len(),
    ensures
        total_leave_days(leaves, emp_id, year, month) == total_leave_days(
            leaves.remove(i),
            emp_id,
            year,
            month,
        ) + leave_share(leaves[i], emp_id, year, month),
    decreases leaves.len(),
{
    if i == leaves.len() - 1 {
        assert(leaves.remove(i) =~= leaves.drop_last());
    } else {
        assert(leaves.remove(i).drop_last() =~= leaves.drop_last().remove(i));
        assert(leaves.remove(i).last() == leaves.last());
        lemma_total_leave_days_remove(leaves.drop_last(), i, emp_id, year, month);
    }
}

/// The order of the leave entries does not matter: two collections that
/// hold the same entries give the same total.
pub proof fn lemma_total_leave_days_ignores_order(
    leaves: Seq<Leav>,
    reordered: Seq<Leav>,
    emp_id: i32,
    year: int,
    month: int,
)
    requires
        leaves.to_multiset() == reordered.to_multiset(),
    ensures
        total_leave_days(leaves, emp_id, year, month) == total_leave_days(
            reordered,
            emp_id,
            year,
            month,
        ),
    decreases leaves.len(),
{
    broadcast use vstd::seq_lib::group_to_multiset_ensures;

    if leaves.len() == 0 {
        assert(leaves.to_multiset().len() == leaves.len());
        assert(reordered.to_multiset().len() == reordered.len());
    } else {
        let last = leaves.last();
        let n = leaves.len() - 1;
        assert(leaves.contains(last));
        assert(reordered.to_multiset().count(last) > 0);
        assert(reordered.contains(last));
        let j = choose|j: int| 0 <= j < reordered.len() && reordered[j] == last;
        assert(leaves.remove(n) =~= leaves.drop_last());
        assert(leaves.remove(n).to_multiset() == leaves.to_multiset().remove(leaves[n]));
        assert(reordered.remove(j).to_multiset() == reordered.to_multiset().remove(reordered[j]));
        lemma_total_leave_days_ignores_order(
            leaves.drop_last(),
            reordered.remove(j),
            emp_id,
            year,
            month,
        );
        lemma_total_leave_days_remove(reordered, j, emp_id, year, month);
    }
}

} // verus!
