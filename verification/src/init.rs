//! Start-up: the configuration that a run keeps for itself.

use crate::configuration_parameters::ConfigurationParameters;
use vstd::prelude::*;

verus! {

/// A configuration of the run's own, holding the same five paths as
/// `config_params`.
pub fn init_loggers(config_params: &ConfigurationParameters) -> (own: ConfigurationParameters)
    ensures
        own.same_paths(config_params),
{
    let emp_path = config_params.emp_file_path().to_owned();
    let dept_path = config_params.dept_file_path().to_owned();
    let salary_path = config_params.sal_file_path().to_owned();
    let leave_path = config_params.leave_file_path().to_owned();
    let output_path = config_params.output_file_path().to_owned();
    ConfigurationParameters { emp_path, dept_path, salary_path, leave_path, output_path }
}

} // verus!
