pub mod capabilities;
pub mod permissions;
pub mod policy;
pub mod validation;

pub use capabilities::{Capability, CapabilityToken};
pub use permissions::{PermissionManager, PermissionPolicy};
pub use policy::{PolicyManager, SecurityPolicy};
pub use validation::{PathValidator, StringValidator, Validator};




use vstd::prelude::*;

verus! {

/// Errors of the security framework.
#[derive(Debug)]
pub enum SecurityError {
    InvalidToken,
    PermissionDenied(String),
    ValidationFailed(String),
}

} // verus!
