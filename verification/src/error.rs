//! Errors of the building-access check.

use vstd::prelude::*;

verus! {

/// Why building access is denied.
#[derive(Debug, PartialEq, Eq, Structural)]
pub enum EmployeeError {
    /// No employee on the roster has the requested id.
    EmployeeNotFound,
    /// The employee is no longer employed.
    EmployeeTerminated,
    /// The employee's role does not grant building access.
    EmployeeNotAllowed,
}

} // verus!
