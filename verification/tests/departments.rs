use employee_report::departments::DepartmentIndex;
use employee_report::records::Dept;

fn dept(dept_id: i32, title: &str) -> Dept {
    Dept { dept_id, dept_title: String::from(title), dept_strength: 10 }
}

#[test]
fn known_department_resolves_to_its_title() {
    let index = DepartmentIndex::build(&vec![dept(10, "Engineering"), dept(20, "Sales")]);
    assert_eq!(index.title(10), "Engineering");
    assert_eq!(index.title(20), "Sales");
}

#[test]
fn absent_department_resolves_to_unknown() {
    let index = DepartmentIndex::build(&vec![dept(10, "Engineering")]);
    assert_eq!(index.title(11), "Unknown");
    assert_eq!(index.title(-10), "Unknown");
}

#[test]
fn empty_index_resolves_everything_to_unknown() {
    let index = DepartmentIndex::build(&Vec::new());
    assert_eq!(index.title(0), "Unknown");
}

#[test]
fn later_department_replaces_an_earlier_one() {
    let index = DepartmentIndex::build(&vec![
        dept(10, "Engineering"),
        dept(20, "Sales"),
        dept(10, "Research"),
    ]);
    assert_eq!(index.title(10), "Research");
    assert_eq!(index.title(20), "Sales");
}
