pub mod channel;
pub mod message;
pub mod protocol;
pub mod security;
pub mod wire;


pub use channel::{BroadcastChannel, ChannelManager, IpcChannel};
pub use message::{IpcMessage, MessagePriority, MessageType, ZeroCopyMessage};
pub use protocol::IpcProtocol;
pub use security::IpcSecurity;

use vstd::prelude::*;

verus! {

/// Errors of inter-process communication.
#[derive(Debug)]
pub enum IpcError {
    ChannelError(String),
    SerializationError(String),
    SecurityError(String),
    CapabilityError(String),
    MessageExpired,
    ConnectionHijacked(String),
    TimeError(String),
}

} // verus!
