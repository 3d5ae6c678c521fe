//! Tests of the digital-keycard building-access check.

use fleet_vehicle_manager::employee::Employee;
use fleet_vehicle_manager::employee::EmployeeType;
use fleet_vehicle_manager::error::EmployeeError;

#[test]
fn test_add_employee() {
    let mut employee = Employee::new();
    employee.add_employee("John Doe".to_string(), EmployeeType::Media, true);
    assert_eq!(employee.data.len(), 1);
    assert_eq!(employee.data[0].name, "John Doe");
    assert_eq!(employee.data[0].employee_type, EmployeeType::Media);
}

#[test]
fn test_employee_can_access_building() {
    let mut employee = Employee::new();
    employee.add_employee("John Doe".to_string(), EmployeeType::Media, true);
    employee.add_employee("Jane Smith".to_string(), EmployeeType::IT, true);
    employee.add_employee("Jim Beam".to_string(), EmployeeType::Manager, false);
    employee.add_employee("Jill Johnson".to_string(), EmployeeType::SocialMedia, false);
    employee.add_employee("King Kong".to_string(), EmployeeType::SocialMedia, true);
    employee.add_employee(
        "Jack Johnson".to_string(),
        EmployeeType::TechnicianSupervisor,
        true,
    );
    employee.add_employee("Jill Johnson".to_string(), EmployeeType::KitchenStaff, true);

    // Test the internal function that returns Result
    assert_eq!(
        employee.check_access(1),
        Ok("Employee John Doe can access the building".to_string())
    );
    assert_eq!(
        employee.check_access(2),
        Ok("Employee Jane Smith can access the building".to_string())
    );

    // Test terminated employee
    assert_eq!(
        employee.check_access(3),
        Err(EmployeeError::EmployeeTerminated)
    );

    // Test not allowed employee
    assert_eq!(
        employee.check_access(4),
        Err(EmployeeError::EmployeeTerminated)
    );
    assert_eq!(
        employee.check_access(5),
        Err(EmployeeError::EmployeeNotAllowed)
    );
}

#[test]
fn test_check_access_unknown_id() {
    let mut employee = Employee::new();
    employee.add_employee("John Doe".to_string(), EmployeeType::Media, true);
    assert_eq!(
        employee.check_access(9),
        Err(EmployeeError::EmployeeNotFound)
    );
}

#[test]
fn test_employee_ids_assigned_in_order() {
    let mut employee = Employee::new();
    assert_eq!(employee.next_id, 1);
    employee.add_employee("John Doe".to_string(), EmployeeType::Media, true);
    employee.add_employee("Jane Smith".to_string(), EmployeeType::KitchenStaff, true);
    assert_eq!(employee.next_id, 3);
    assert_eq!(employee.data[0].id, 1);
    assert_eq!(employee.data[1].id, 2);
}
