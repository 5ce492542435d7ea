use super::IpcError;
use crate::text::concat3;
use vstd::prelude::*;

verus! {

/// How messages are written as bytes.
#[derive(Debug, Clone)]
pub enum IpcProtocol {
    /// JSON text.
    Json,
    /// bincode.
    Binary,
    /// A protocol known by name only, which has no encoding.
    Custom(String),
}

impl IpcProtocol {
    /// `Ok` for the protocols that have an encoding; for a custom protocol, the error that
    /// serializing and deserializing report.
    pub fn check_supported(&self) -> (r: Result<(), IpcError>)
        ensures
            match self {
                IpcProtocol::Custom(name) => r matches Err(IpcError::SerializationError(m))
                    && m@ == "Custom protocol '"@ + name@ + "' not implemented"@,
                _ => r is Ok,
            },
    {
        match self {
            IpcProtocol::Custom(name) => Err(IpcError::SerializationError(
                concat3("Custom protocol '", name.as_str(), "' not implemented"),
            )),
            _ => Ok(()),
        }
    }
}

impl Default for IpcProtocol {
    fn default() -> (r: IpcProtocol)
        ensures
            r is Json,
    {
        IpcProtocol::Json
    }
}

} // verus!
