//! The salary-credit test: was any salary entry of an employee dated in the
//! reference month?
//!
//! The date of a salary entry is free text. An entry counts for a month when
//! its text holds the month's two digits between two hyphens, as in
//! `2024-06-30`. The year is not looked at, so an entry of the same month of
//! another year counts as well.

use crate::records::{SalaryStatus, Salent};
use crate::text::{digit_char, occurs_in, text_contains};
use vstd::prelude::*;

verus! {

/// The text that marks a month inside a date: a hyphen, the month in two
/// digits, a hyphen.
pub open spec fn month_segment(month: int) -> Seq<char> {
    seq!['-', digit_char(month / 10), digit_char(month % 10), '-']
}

/// Whether `entry` is an entry of the employee `emp_id` dated in `month`.
pub open spec fn entry_credits(entry: Salent, emp_id: i32, month: int) -> bool {
    entry.emp_id == emp_id && occurs_in(entry.sal_date@, month_segment(month))
}

/// Whether some entry of `entries` is an entry of the employee `emp_id`
/// dated in `month`.
pub open spec fn credited(entries: Seq<Salent>, emp_id: i32, month: int) -> bool {
    exists|i: int| 0 <= i < entries.len() && entry_credits(#[trigger] entries[i], emp_id, month)
}

/// The text that marks `month` inside a date, such as `"-06-"` for June.
pub fn month_pattern(month: u32) -> (pattern: &'static str)
    requires
        1 <= month <= 12,
    ensures
        pattern@ == month_segment(month as int),
{
    proof {
        reveal_strlit("-01-");
        reveal_strlit("-02-");
        reveal_strlit("-03-");
        reveal_strlit("-04-");
        reveal_strlit("-05-");
        reveal_strlit("-06-");
        reveal_strlit("-07-");
        reveal_strlit("-08-");
        reveal_strlit("-09-");
        reveal_strlit("-10-");
        reveal_strlit("-11-");
        reveal_strlit("-12-");
    }
    let pattern = if month == 1 {
        "-01-"
    } else if month == 2 {
        "-02-"
    } else if month == 3 {
        "-03-"
    } else if month == 4 {
        "-04-"
    } else if month == 5 {
        "-05-"
    } else if month == 6 {
        "-06-"
    } else if month == 7 {
        "-07-"
    } else if month == 8 {
        "-08-"
    } else if month == 9 {
        "-09-"
    } else if month == 10 {
        "-10-"
    } else if month == 11 {
        "-11-"
    } else {
        "-12-"
    };
    assert(pattern@ =~= month_segment(month as int));
    pattern
}

/// Whether the date text of a salary entry names `month`.
pub fn date_in_month(sal_date: &str, month: u32) -> (found: bool)
    requires
        1 <= month <= 12,
    ensures
        found == occurs_in(sal_date@, month_segment(month as int)),
{
    text_contains(sal_date, month_pattern(month))
}

/// Whether the employee `emp_id` has at least one salary entry dated in
/// `month`. One entry is enough, whatever its amount or status.
pub fn is_salary_credited(sal_data: &Vec<Salent>, emp_id: i32, month: u32) -> (found: bool)
    requires
        1 <= month <= 12,
    ensures
        found == credited(sal_data@, emp_id, month as int),
{
    let mut i: usize = 0;
    while i < sal_data.len()
        invariant
            i <= sal_data.len(),
            1 <= month <= 12,
            forall|j: int| 0 <= j < i ==> !entry_credits(#[trigger] sal_data@[j], emp_id, month as int),
        decreases sal_data.len() - i,
    {
        let entry = &sal_data[i];
        if entry.emp_id == emp_id && date_in_month(entry.sal_date.as_str(), month) {
            assert(entry_credits(sal_data@[i as int], emp_id, month as int));
            return true;
        }
        i += 1;
    }
    false
}

/// Without an entry of the employee dated in the month, no salary counts as
/// credited.
pub proof fn lemma_no_matching_entry_not_credited(entries: Seq<Salent>, emp_id: i32, month: int)
    requires
        forall|i: int| 0 <= i < entries.len() ==> !entry_credits(#[trigger] entries[i], emp_id, month),
    ensures
        !credited(entries, emp_id, month),
        SalaryStatus::of(credited(entries, emp_id, month)) == SalaryStatus::NotCredited,
{
}

/// One entry of the employee dated in the month makes the salary count as
/// credited, wherever it stands among the entries.
pub proof fn lemma_one_matching_entry_credits(entries: Seq<Salent>, i: int, emp_id: i32, month: int)
    requires
        0 <= i < entries.len(),
        entry_credits(entries[i], emp_id, month),
    ensures
        credited(entries, emp_id, month),
        SalaryStatus::of(credited(entries, emp_id, month)) == SalaryStatus::Credited,
{
}

/// Entries added to a collection whose salary counts as credited leave it
/// credited; and any collection that gains a matching entry is credited.
pub proof fn lemma_more_entries_keep_credit(
    entries: Seq<Salent>,
    more: Seq<Salent>,
    emp_id: i32,
    month: int,
)
    ensures
        credited(entries, emp_id, month) ==> credited(entries + more, emp_id, month),
        credited(more, emp_id, month) ==> credited(entries + more, emp_id, month),
        credited(entries + more, emp_id, month) == (credited(entries, emp_id, month) || credited(
            more,
            emp_id,
            month,
        )),
{
    let all = entries + more;
    if credited(entries, emp_id, month) {
        let i = choose|i: int|
            0 <= i < entries.len() && entry_credits(#[trigger] entries[i], emp_id, month);
        assert(all[i] == entries[i]);
    }
    if credited(more, emp_id, month) {
        let i = choose|i: int| 0 <= i < more.len() && entry_credits(#[trigger] more[i], emp_id, month);
        assert(all[entries.len() + i] == more[i]);
    }
    if credited(all, emp_id, month) {
        let i = choose|i: int| 0 <= i < all.len() && entry_credits(#[trigger] all[i], emp_id, month);
        if i < entries.len() {
            assert(entries[i] == all[i]);
        } else {
            assert(more[i - entries.len()] == all[i]);
        }
    }
}

/// The order of the salary entries does not matter: two collections that
/// hold the same entries give the same answer.
pub proof fn lemma_credit_ignores_order(
    entries: Seq<Salent>,
    reordered: Seq<Salent>,
    emp_id: i32,
    month: int,
)
    requires
        entries.to_multiset() == reordered.to_multiset(),
    ensures
        credited(entries, emp_id, month) == credited(reordered, emp_id, month),
{
    lemma_credit_carries_over(entries, reordered, emp_id, month);
    lemma_credit_carries_over(reordered, entries, emp_id, month);
}

proof fn lemma_credit_carries_over(from: Seq<Salent>, to: Seq<Salent>, emp_id: i32, month: int)
    requires
        from.to_multiset() == to.to_multiset(),
    ensures
        credited(from, emp_id, month) ==> credited(to, emp_id, month),
{
    broadcast use vstd::seq_lib::group_to_multiset_ensures;

    if credited(from, emp_id, month) {
        let i = choose|i: int| 0 <= i < from.len() && entry_credits(#[trigger] from[i], emp_id, month);
        assert(from.contains(from[i]));
        assert(to.to_multiset().count(from[i]) > 0);
        assert(to.contains(from[i]));
        let j = choose|j: int| 0 <= j < to.len() && to[j] == from[i];
        assert(entry_credits(to[j], emp_id, month));
    }
}

} // verus!
