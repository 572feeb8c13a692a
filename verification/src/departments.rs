//! The department index: from a department's identifier to its title.

use crate::records::Dept;
use std::collections::HashMap;
use vstd::prelude::*;

verus! {

broadcast use vstd::std_specs::hash::group_hash_axioms;

/// The title that stands for a department that is not known.
pub open spec fn unknown_title() -> Seq<char> {
    "Unknown"@
}

/// The title that `dept_id` resolves to among `depts`: that of the last
/// department with this identifier, or the unknown title when there is none.
pub open spec fn title_of(depts: Seq<Dept>, dept_id: i32) -> Seq<char>
    decreases depts.len(),
{
    if depts.len() == 0 {
        unknown_title()
    } else if depts.last().dept_id == dept_id {
        depts.last().dept_title@
    } else {
        title_of(depts.drop_last(), dept_id)
    }
}

/// Whether some department of `depts` has the identifier `dept_id`.
pub open spec fn has_department(depts: Seq<Dept>, dept_id: i32) -> bool {
    exists|i: int| 0 <= i < depts.len() && (#[trigger] depts[i]).dept_id == dept_id
}

/// A lookup from department identifier to title, built once per report.
/// Where two departments share an identifier, the later one counts.
pub struct DepartmentIndex {
    titles: HashMap<i32, String>,
}

impl DepartmentIndex {
    /// The index as a map from identifier to title.
    pub closed spec fn view(&self) -> Map<i32, Seq<char>> {
        Map::new(|id: i32| self.titles@.contains_key(id), |id: i32| self.titles@[id]@)
    }

    /// The title that the index gives for `dept_id`.
    pub open spec fn resolve(&self, dept_id: i32) -> Seq<char> {
        if self@.contains_key(dept_id) {
            self@[dept_id]
        } else {
            unknown_title()
        }
    }

    /// Builds the index of `depts`.
    pub fn build(depts: &Vec<Dept>) -> (index: DepartmentIndex)
        ensures
            forall|id: i32| index@.contains_key(id) <==> has_department(depts@, id),
            forall|id: i32| #[trigger] index.resolve(id) == title_of(depts@, id),
    {
        let mut titles: HashMap<i32, String> = HashMap::new();
        let mut i: usize = 0;
        while i < depts.len()
            invariant
                i <= depts.len(),
                forall|id: i32|
                    titles@.contains_key(id) <==> has_department(depts@.take(i as int), id),
                forall|id: i32|
                    titles@.contains_key(id) ==> (#[trigger] titles@[id])@ == title_of(
                        depts@.take(i as int),
                        id,
                    ),
            decreases depts.len() - i,
        {
            let dept = &depts[i];
            let ghost before = depts@.take(i as int);
            let ghost after = depts@.take(i + 1);
            let ghost old_titles = titles@;
            let title = dept.dept_title.clone();
            titles.insert(dept.dept_id, title);
            proof {
                assert(after.drop_last() =~= before);
                assert(after.last() == depts@[i as int]);
                assert forall|id: i32|
                    titles@.contains_key(id) <==> has_department(after, id) by {
                    if has_department(before, id) {
                        let j = choose|j: int|
                            0 <= j < before.len() && (#[trigger] before[j]).dept_id == id;
                        assert(after[j].dept_id == id);
                    }
                    if has_department(after, id) && id != dept.dept_id {
                        let j = choose|j: int|
                            0 <= j < after.len() && (#[trigger] after[j]).dept_id == id;
                        assert(before[j].dept_id == id);
                    }
                    if id == dept.dept_id {
                        assert(after[i as int].dept_id == id);
                    }
                }
            }
            i += 1;
        }
        proof {
            assert(depts@.take(i as int) =~= depts@);
        }
        let index = DepartmentIndex { titles };
        proof {
            assert forall|id: i32| #[trigger] index.resolve(id) == title_of(depts@, id) by {
                if !index@.contains_key(id) {
                    lemma_absent_department_is_unknown(depts@, id);
                }
            }
        }
        index
    }

    /// The title of the department `dept_id`, or `"Unknown"` when the index
    /// holds no such department.
    pub fn title(&self, dept_id: i32) -> (title: String)
        ensures
            title@ == self.resolve(dept_id),
    {
        match self.titles.get(&dept_id) {
            Some(found) => found.clone(),
            None => "Unknown".to_owned(),
        }
    }
}

/// A department identifier that no department carries resolves to the
/// unknown title.
pub proof fn lemma_absent_department_is_unknown(depts: Seq<Dept>, dept_id: i32)
    requires
        !has_department(depts, dept_id),
    ensures
        title_of(depts, dept_id) == unknown_title(),
    decreases depts.len(),
{
    if depts.len() > 0 {
        assert(depts[depts.len() - 1].dept_id != dept_id);
        assert forall|i: int| 0 <= i < depts.drop_last().len() implies (
        #[trigger] depts.drop_last()[i]).dept_id != dept_id by {
            assert(depts[i].dept_id != dept_id);
        }
        lemma_absent_department_is_unknown(depts.drop_last(), dept_id);
    }
}

/// A department identifier resolves to the title of the last department
/// that carries it.
pub proof fn lemma_last_department_wins(depts: Seq<Dept>, i: int)
    requires
        0 <= i < depts.len(),
        forall|j: int| i < j < depts.len() ==> (#[trigger] depts[j]).dept_id != depts[i].dept_id,
    ensures
        title_of(depts, depts[i].dept_id) == depts[i].dept_title@,
    decreases depts.len(),
{
    if i < depts.len() - 1 {
        assert(depts[depts.len() - 1].dept_id != depts[i].dept_id);
        assert(depts.drop_last()[i] == depts[i]);
        assert forall|j: int| i < j < depts.drop_last().len() implies (
        #[trigger] depts.drop_last()[j]).dept_id != depts.drop_last()[i].dept_id by {
            assert(depts[j].dept_id != depts[i].dept_id);
        }
        lemma_last_department_wins(depts.drop_last(), i);
    }
}

/// Whether no two departments of `depts` share an identifier.
pub open spec fn distinct_departments(depts: Seq<Dept>) -> bool {
    forall|i: int, j: int|
        0 <= i < depts.len() && 0 <= j < depts.len() && i != j ==> (#[trigger] depts[i]).dept_id != (
        #[trigger] depts[j]).dept_id
}

/// Two collections that hold the same departments are both free of shared
/// identifiers, or neither is.
pub proof fn lemma_distinct_departments_ignores_order(depts: Seq<Dept>, reordered: Seq<Dept>)
    requires
        depts.to_multiset() == reordered.to_multiset(),
        distinct_departments(depts),
    ensures
        distinct_departments(reordered),
{
    broadcast use vstd::seq_lib::group_to_multiset_ensures;

    assert(depts.no_duplicates());
    depts.lemma_multiset_has_no_duplicates();
    reordered.lemma_multiset_has_no_duplicates_conv();
    assert forall|i: int, j: int|
        0 <= i < reordered.len() && 0 <= j < reordered.len() && i != j implies (
    #[trigger] reordered[i]).dept_id != (#[trigger] reordered[j]).dept_id by {
        if reordered[i].dept_id == reordered[j].dept_id {
            assert(reordered.contains(reordered[i]));
            assert(reordered.contains(reordered[j]));
            assert(depts.to_multiset().count(reordered[i]) > 0);
            assert(depts.to_multiset().count(reordered[j]) > 0);
            assert(depts.contains(reordered[i]));
            assert(depts.contains(reordered[j]));
            let a = choose|a: int| 0 <= a < depts.len() && depts[a] == reordered[i];
            let b = choose|b: int| 0 <= b < depts.len() && depts[b] == reordered[j];
            assert(depts[a].dept_id == depts[b].dept_id);
            assert(a == b);
            assert(reordered[i] == reordered[j]);
        }
    }
}

/// Where no two departments share an identifier, their order does not
/// matter: two collections that hold the same departments resolve every
/// identifier to the same title.
pub proof fn lemma_title_ignores_order(depts: Seq<Dept>, reordered: Seq<Dept>, dept_id: i32)
    requires
        depts.to_multiset() == reordered.to_multiset(),
        distinct_departments(depts),
    ensures
        title_of(depts, dept_id) == title_of(reordered, dept_id),
{
    broadcast use vstd::seq_lib::group_to_multiset_ensures;

    lemma_distinct_departments_ignores_order(depts, reordered);
    if has_department(depts, dept_id) {
        let i = choose|i: int| 0 <= i < depts.len() && (#[trigger] depts[i]).dept_id == dept_id;
        assert(depts.contains(depts[i]));
        assert(reordered.to_multiset().count(depts[i]) > 0);
        assert(reordered.contains(depts[i]));
        let j = choose|j: int| 0 <= j < reordered.len() && reordered[j] == depts[i];
        lemma_last_department_wins(depts, i);
        lemma_last_department_wins(reordered, j);
    } else {
        if has_department(reordered, dept_id) {
            let j = choose|j: int|
                0 <= j < reordered.len() && (#[trigger] reordered[j]).dept_id == dept_id;
            assert(reordered.contains(reordered[j]));
            assert(depts.to_multiset().count(reordered[j]) > 0);
            assert(depts.contains(reordered[j]));
            let i = choose|i: int| 0 <= i < depts.len() && depts[i] == reordered[j];
            assert(depts[i].dept_id == dept_id);
        }
        lemma_absent_department_is_unknown(depts, dept_id);
        lemma_absent_department_is_unknown(reordered, dept_id);
    }
}

} // verus!
