//! Scenario tests mirroring the registry's stated laws on concrete values.

use fleet_vehicle_manager::RegistryError;
use fleet_vehicle_manager::UserProfile;
use fleet_vehicle_manager::VehicleStatus;
use fleet_vehicle_manager::VehiclesRegistry;

#[test]
fn test_second_sign_up_with_same_username_is_rejected() {
    let mut registry = VehiclesRegistry::new();
    assert_eq!(
        registry.sign_up("alice".to_string(), "pw1".to_string()),
        Ok("alice".to_string())
    );
    assert_eq!(
        registry.sign_up("alice".to_string(), "pw2".to_string()),
        Err(RegistryError::DuplicateUser)
    );
}

#[test]
fn test_login_requires_exact_credential_pair() {
    let mut registry = VehiclesRegistry::new();
    registry
        .sign_up("alice".to_string(), "pw1".to_string())
        .unwrap();
    registry
        .sign_up("bob".to_string(), "pw2".to_string())
        .unwrap();

    // Mixing one user's name with another's password is rejected.
    assert_eq!(
        registry.login("alice".to_string(), "pw2".to_string()),
        Err(RegistryError::InvalidCredentials)
    );
    assert_eq!(
        registry.login("bob".to_string(), "pw1".to_string()),
        Err(RegistryError::InvalidCredentials)
    );
    // Each exact pair is accepted.
    assert_eq!(registry.login("alice".to_string(), "pw1".to_string()), Ok(()));
    assert_eq!(registry.login("bob".to_string(), "pw2".to_string()), Ok(()));
}

#[test]
fn test_view_after_remove_is_not_found() {
    let mut registry = VehiclesRegistry::new();
    registry
        .sign_up("alice".to_string(), "pw1".to_string())
        .unwrap();
    registry
        .login("alice".to_string(), "pw1".to_string())
        .unwrap();
    registry
        .add_vehicle("Civic".to_string(), "PL1".to_string())
        .unwrap();
    registry.retire_vehicle("PL1".to_string()).unwrap();
    registry.remove_vehicle("PL1".to_string()).unwrap();

    let result = registry.view_vehicle("PL1".to_string());
    assert_eq!(result.unwrap_err(), RegistryError::VehicleNotFound);
}

#[test]
fn test_edit_with_no_fields_leaves_record_unchanged() {
    let mut registry = VehiclesRegistry::new();
    registry
        .sign_up("alice".to_string(), "pw1".to_string())
        .unwrap();
    registry
        .login("alice".to_string(), "pw1".to_string())
        .unwrap();
    registry
        .add_vehicle("Civic".to_string(), "PL1".to_string())
        .unwrap();

    assert_eq!(registry.edit_vehicle("PL1".to_string(), None, None), Ok(()));

    let vehicle = registry.view_vehicle("PL1".to_string()).unwrap();
    assert_eq!(vehicle.id, 1);
    assert_eq!(vehicle.model, "Civic");
    assert_eq!(vehicle.license_plate, "PL1");
    assert!(matches!(vehicle.status, VehicleStatus::Registered));
}

#[test]
fn test_full_lifecycle_of_one_vehicle() {
    let mut registry = VehiclesRegistry::new();
    assert_eq!(
        registry.sign_up("alice".to_string(), "pw1".to_string()),
        Ok("alice".to_string())
    );
    assert_eq!(registry.login("alice".to_string(), "pw1".to_string()), Ok(()));
    assert_eq!(
        registry.add_vehicle("Civic".to_string(), "PL1".to_string()),
        Ok(1)
    );

    let vehicles = registry.view_vehicles();
    assert_eq!(vehicles.len(), 1);
    assert_eq!(vehicles[0].license_plate, "PL1");
    assert!(matches!(vehicles[0].status, VehicleStatus::Registered));

    assert_eq!(registry.retire_vehicle("PL1".to_string()), Ok(()));

    let removed = registry.remove_vehicle("PL1".to_string()).unwrap();
    assert_eq!(removed.model, "Civic");
    assert_eq!(removed.license_plate, "PL1");

    assert!(registry.view_vehicles().is_empty());
}

#[test]
fn test_edit_moves_vehicle_to_new_plate() {
    let mut registry = VehiclesRegistry::new();
    registry
        .sign_up("alice".to_string(), "pw1".to_string())
        .unwrap();
    registry
        .login("alice".to_string(), "pw1".to_string())
        .unwrap();
    registry
        .add_vehicle("Civic".to_string(), "PL1".to_string())
        .unwrap();

    assert_eq!(
        registry.edit_vehicle("PL1".to_string(), None, Some("PL2".to_string())),
        Ok(())
    );

    assert_eq!(
        registry.view_vehicle("PL1".to_string()).unwrap_err(),
        RegistryError::VehicleNotFound
    );
    let vehicle = registry.view_vehicle("PL2".to_string()).unwrap();
    assert_eq!(vehicle.id, 1);
    assert_eq!(vehicle.model, "Civic");
}

#[test]
fn test_vehicle_ids_are_not_reused() {
    let mut registry = VehiclesRegistry::new();
    registry
        .sign_up("alice".to_string(), "pw1".to_string())
        .unwrap();
    registry
        .login("alice".to_string(), "pw1".to_string())
        .unwrap();
    assert_eq!(
        registry.add_vehicle("Civic".to_string(), "PL1".to_string()),
        Ok(1)
    );
    registry.retire_vehicle("PL1".to_string()).unwrap();
    registry.remove_vehicle("PL1".to_string()).unwrap();
    assert_eq!(
        registry.add_vehicle("Accord".to_string(), "PL2".to_string()),
        Ok(2)
    );
}

#[test]
fn test_login_overwrites_active_session() {
    let mut registry = VehiclesRegistry::new();
    registry
        .sign_up("alice".to_string(), "pw1".to_string())
        .unwrap();
    registry
        .sign_up("bob".to_string(), "pw2".to_string())
        .unwrap();
    registry
        .login("alice".to_string(), "pw1".to_string())
        .unwrap();
    // A second login needs no logout in between.
    assert_eq!(registry.login("bob".to_string(), "pw2".to_string()), Ok(()));
    assert_eq!(
        registry.add_vehicle("Civic".to_string(), "PL1".to_string()),
        Ok(1)
    );
}

#[test]
fn test_new_user_profile_is_blank() {
    let profile = UserProfile::new();
    assert_eq!(profile.id, 0);
    assert_eq!(profile.user_name, "");
    assert_eq!(profile.password, "");
}
