//! Data model of the fleet-vehicle registry: menu choices, user accounts,
//! vehicles and their lifecycle status, together with the mathematical views
//! that the registry's contracts are stated over.

use crate::clock::now_secs;
use vstd::prelude::*;

verus! {

/// The numbered choices of the text menu that a surrounding interface maps to
/// registry operations.
#[derive(Debug, PartialEq, Eq, Structural)]
pub enum MenuOption {
    SignUp,
    Login,
    AddVehicle,
    ViewVehicles,
    ViewVehicle,
    RetireVehicle,
    RemoveVehicle,
    EditVehicle,
    Logout,
}

impl MenuOption {
    /// Which option, if any, a given menu number selects.
    pub open spec fn spec_from_number(value: u8) -> Option<MenuOption> {
        if value == 1 {
            Some(MenuOption::SignUp)
        } else if value == 2 {
            Some(MenuOption::Login)
        } else if value == 3 {
            Some(MenuOption::AddVehicle)
        } else if value == 4 {
            Some(MenuOption::ViewVehicles)
        } else if value == 5 {
            Some(MenuOption::ViewVehicle)
        } else if value == 6 {
            Some(MenuOption::RetireVehicle)
        } else if value == 7 {
            Some(MenuOption::RemoveVehicle)
        } else if value == 8 {
            Some(MenuOption::EditVehicle)
        } else if value == 9 {
            Some(MenuOption::Logout)
        } else {
            None
        }
    }

    /// Parses a menu number; numbers outside 1..=9 select nothing.
    pub fn try_from(value: u8) -> (r: Result<MenuOption, ()>)
        ensures
            Self::spec_from_number(value) matches Some(m) ==> r == Ok::<MenuOption, ()>(m),
            Self::spec_from_number(value) is None ==> r == Err::<MenuOption, ()>(()),
    {
        match value {
            1 => Ok(MenuOption::SignUp),
            2 => Ok(MenuOption::Login),
            3 => Ok(MenuOption::AddVehicle),
            4 => Ok(MenuOption::ViewVehicles),
            5 => Ok(MenuOption::ViewVehicle),
            6 => Ok(MenuOption::RetireVehicle),
            7 => Ok(MenuOption::RemoveVehicle),
            8 => Ok(MenuOption::EditVehicle),
            9 => Ok(MenuOption::Logout),
            _ => Err(()),
        }
    }
}

/// Lifecycle status of a vehicle. `Registered` vehicles may be retired;
/// only `Retired` vehicles may be removed.
#[derive(Debug, Clone, Copy, PartialEq, Eq, Structural)]
pub enum VehicleStatus {
    Registered,
    Retired,
}

/// A user account: unique username, password compared verbatim, and the
/// creation time in whole seconds.
#[derive(Debug)]
pub struct UserProfile {
    pub id: u32,
    pub user_name: String,
    pub password: String,
    pub created_at: u64,
}

/// Mathematical view of a [`UserProfile`].
#[verifier::ext_equal]
pub struct UserView {
    pub id: u32,
    pub user_name: Seq<char>,
    pub password: Seq<char>,
    pub created_at: u64,
}

impl View for UserProfile {
    type V = UserView;

    open spec fn view(&self) -> UserView {
        UserView {
            id: self.id,
            user_name: self.user_name@,
            password: self.password@,
            created_at: self.created_at,
        }
    }
}

impl UserProfile {
    /// An empty placeholder profile, before any account data is known.
    pub fn new() -> (r: UserProfile)
        ensures
            r.id == 0,
            r.user_name@ == Seq::<char>::empty(),
            r.password@ == Seq::<char>::empty(),
    {
        UserProfile {
            id: 0,
            user_name: String::new(),
            password: String::new(),
            created_at: now_secs(),
        }
    }
}

/// A fleet vehicle: identifier assigned in order of registration, model
/// description, unique license plate, lifecycle status, and the registration
/// time in whole seconds.
#[derive(Debug)]
pub struct Vehicle {
    pub id: u32,
    pub model: String,
    pub license_plate: String,
    pub status: VehicleStatus,
    pub registered_at: u64,
}

/// Mathematical view of a [`Vehicle`].
#[verifier::ext_equal]
pub struct VehicleView {
    pub id: u32,
    pub model: Seq<char>,
    pub license_plate: Seq<char>,
    pub status: VehicleStatus,
    pub registered_at: u64,
}

impl View for Vehicle {
    type V = VehicleView;

    open spec fn view(&self) -> VehicleView {
        VehicleView {
            id: self.id,
            model: self.model@,
            license_plate: self.license_plate@,
            status: self.status,
            registered_at: self.registered_at,
        }
    }
}

} // verus!
