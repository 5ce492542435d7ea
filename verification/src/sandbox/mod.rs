pub mod manager;
pub mod namespace;

pub use manager::{LaunchPlan, Sandbox};
pub use namespace::NamespaceConfig;

use vstd::prelude::*;

verus! {

/// Errors of the sandbox.
#[derive(Debug)]
pub enum SandboxError {
    CreationFailed(String),
    NamespaceError(String),
    ProcessError(String),
}

} // verus!
