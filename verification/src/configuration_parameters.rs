//! The five file paths that one run of the report works with.

use vstd::prelude::*;

verus! {

/// Where the four inputs are read from and where the report is written.
#[derive(Clone, Debug)]
pub struct ConfigurationParameters {
    pub emp_path: String,
    pub dept_path: String,
    pub salary_path: String,
    pub leave_path: String,
    pub output_path: String,
}

/// The configuration that holds the five given paths.
pub fn get_configuration_parameters(
    emp_path: &str,
    dept_path: &str,
    salary_path: &str,
    leave_path: &str,
    output_path: &str,
) -> (params: ConfigurationParameters)
    ensures
        params.emp_path@ == emp_path@,
        params.dept_path@ == dept_path@,
        params.salary_path@ == salary_path@,
        params.leave_path@ == leave_path@,
        params.output_path@ == output_path@,
{
    ConfigurationParameters {
        emp_path: emp_path.to_owned(),
        dept_path: dept_path.to_owned(),
        salary_path: salary_path.to_owned(),
        leave_path: leave_path.to_owned(),
        output_path: output_path.to_owned(),
    }
}

impl ConfigurationParameters {
    /// Whether two configurations hold the same five paths.
    pub open spec fn same_paths(&self, other: &ConfigurationParameters) -> bool {
        &&& self.emp_path@ == other.emp_path@
        &&& self.dept_path@ == other.dept_path@
        &&& self.salary_path@ == other.salary_path@
        &&& self.leave_path@ == other.leave_path@
        &&& self.output_path@ == other.output_path@
    }

    /// The path of the employee file.
    pub fn emp_file_path(&self) -> (path: &str)
        ensures
            path@ == self.emp_path@,
    {
        self.emp_path.as_str()
    }

    /// The path of the department file.
    pub fn dept_file_path(&self) -> (path: &str)
        ensures
            path@ == self.dept_path@,
    {
        self.dept_path.as_str()
    }

    /// The path of the salary file.
    pub fn sal_file_path(&self) -> (path: &str)
        ensures
            path@ == self.salary_path@,
    {
        self.salary_path.as_str()
    }

    /// The path of the leave file.
    pub fn leave_file_path(&self) -> (path: &str)
        ensures
            path@ == self.leave_path@,
    {
        self.leave_path.as_str()
    }

    /// The path of the report file.
    pub fn output_file_path(&self) -> (path: &str)
        ensures
            path@ == self.output_path@,
    {
        self.output_path.as_str()
    }
}

} // verus!
