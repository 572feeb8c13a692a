//! Monthly employee report: joins employees with their departments, salary
//! entries and leave entries, and produces one row per employee.
//!
//! Every function of this crate is verified; the few calls into `chrono` and
//! `std` that carry an assumed contract are documented where they stand.

pub mod calendar;
pub mod configuration_parameters;
pub mod departments;
pub mod diagnostics;
pub mod init;
pub mod layout;
pub mod leave;
pub mod process;
pub mod records;
pub mod salary;
pub mod text;
