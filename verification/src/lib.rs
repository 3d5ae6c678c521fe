//! In-memory record-management exercises: a fleet-vehicle registry with user
//! accounts, a student registry, and an employee building-access check.
//!
//! The core component is [`registry::VehiclesRegistry`], which combines
//! sign-up/login/logout, a vehicle catalog keyed by license plate, and the
//! vehicle lifecycle rule registered -> retired -> removed.

mod clock;
pub mod employee;
pub mod error;
pub mod models;
pub mod registry;
pub mod school;

pub use models::MenuOption;
pub use models::UserProfile;
pub use models::UserView;
pub use models::Vehicle;
pub use models::VehicleStatus;
pub use models::VehicleView;
pub use registry::RegistryError;
pub use registry::VehiclesRegistry;
