use crate::clock::unix_time_secs;
use crate::crypto::system_random;
use crate::ident::{new_uuid_v4, uuid_v4_text};
use super::IpcError;
use vstd::prelude::*;
use vstd::slice::slice_to_vec;

verus! {

/// The shared-buffer type that zero-copy messages carry their payload in.
#[verifier::external_type_specification]
#[verifier::external_body]
pub struct ExBytes(bytes::Bytes);

/// How urgent a message is.
#[derive(Debug, Clone, Copy, PartialEq, Eq, Structural)]
pub enum MessagePriority {
    Low,
    Normal,
    High,
    Critical,
}

impl Default for MessagePriority {
    fn default() -> (r: MessagePriority)
        ensures
            r == MessagePriority::Normal,
    {
        MessagePriority::Normal
    }
}

/// What a message is for.
#[derive(Debug, Clone, Copy, PartialEq, Eq, Structural)]
pub enum MessageType {
    Request,
    Response,
    Event,
    Command,
    Heartbeat,
}

impl Default for MessageType {
    fn default() -> (r: MessageType)
        ensures
            r == MessageType::Event,
    {
        MessageType::Event
    }
}

/// A message between processes.
#[derive(Debug, Clone)]
pub struct IpcMessage {
    pub id: String,
    pub source: String,
    pub target: String,
    pub payload: Vec<u8>,
    /// Seconds since the Unix epoch when the message was made.
    pub timestamp: u64,
    /// Seconds the message stays valid after its timestamp, if limited.
    pub ttl: Option<u32>,
    pub priority: MessagePriority,
    pub message_type: MessageType,
    /// The session the sender claims, if any.
    pub session_token: Option<String>,
}

/// Whether a message with this timestamp and time to live is expired at time `now`: it has a
/// time to live and `now` is past its timestamp plus that many seconds.
pub open spec fn expired_at(timestamp: u64, ttl: Option<u32>, now: u64) -> bool {
    match ttl {
        Some(t) => now > timestamp + t,
        None => false,
    }
}

/// Whether `b` is a copy of `a`, field by field.
pub open spec fn same_message(a: IpcMessage, b: IpcMessage) -> bool {
    &&& a.id == b.id
    &&& a.source == b.source
    &&& a.target == b.target
    &&& a.payload@ == b.payload@
    &&& a.timestamp == b.timestamp
    &&& a.ttl == b.ttl
    &&& a.priority == b.priority
    &&& a.message_type == b.message_type
    &&& a.session_token == b.session_token
}

/// Whether a message is fresh from the constructor: no time to live, normal priority, an
/// event, no session token.
pub open spec fn fresh_defaults(m: IpcMessage) -> bool {
    &&& m.ttl is None
    &&& m.priority == MessagePriority::Normal
    &&& m.message_type == MessageType::Event
    &&& m.session_token is None
}

/// Whether two messages agree on everything but their session token.
pub open spec fn same_but_token(a: IpcMessage, b: IpcMessage) -> bool {
    &&& a.id == b.id
    &&& a.source == b.source
    &&& a.target == b.target
    &&& a.payload == b.payload
    &&& a.timestamp == b.timestamp
    &&& a.ttl == b.ttl
    &&& a.priority == b.priority
    &&& a.message_type == b.message_type
}

/// Whether `id` is the text of a version-4 UUID.
pub open spec fn is_uuid_v4(id: Seq<char>) -> bool {
    exists|b: Seq<u8>| b.len() == 16 && id == #[trigger] uuid_v4_text(b)
}

/// The message of the error when no id can be made because the random source fails.
pub open spec fn id_failure_message() -> Seq<char> {
    "Failed to generate message id: ring::error::Unspecified"@
}

/// The current time in seconds since the Unix epoch, or 0 when the clock reads earlier.
fn now_or_epoch() -> u64 {
    match unix_time_secs() {
        Ok(t) => t,
        Err(_) => 0,
    }
}

impl IpcMessage {
    /// A message with the given identity and time, and the constructor's defaults.
    pub fn from_parts(id: String, source: &str, target: &str, payload: Vec<u8>, timestamp: u64) -> (r: IpcMessage)
        ensures
            r.id == id,
            r.source@ == source@,
            r.target@ == target@,
            r.payload == payload,
            r.timestamp == timestamp,
            fresh_defaults(r),
    {
        IpcMessage {
            id,
            source: source.to_string(),
            target: target.to_string(),
            payload,
            timestamp,
            ttl: None,
            priority: MessagePriority::Normal,
            message_type: MessageType::Event,
            session_token: None,
        }
    }

    /// A message from `source` to `target`, with a fresh random id (a hyphenated v4 UUID) and
    /// the current time in seconds (0 when the clock reads earlier than the Unix epoch). Fails
    /// only when the random source fails.
    pub fn new(source: &str, target: &str, payload: Vec<u8>) -> (r: Result<IpcMessage, IpcError>)
        ensures
            r matches Ok(m) ==> {
                &&& m.source@ == source@
                &&& m.target@ == target@
                &&& m.payload == payload
                &&& is_uuid_v4(m.id@)
                &&& fresh_defaults(m)
            },
            r matches Err(e) ==> (e matches IpcError::SecurityError(t) && t@ == id_failure_message()),
    {
        let id = match new_uuid_v4(&system_random()) {
            Some(id) => id,
            None => return Err(IpcError::SecurityError("Failed to generate message id: ring::error::Unspecified".to_string())),
        };
        let timestamp = now_or_epoch();
        Ok(IpcMessage::from_parts(id, source, target, payload, timestamp))
    }

    /// The message with a time to live of `ttl` seconds.
    pub fn with_ttl(self, ttl: u32) -> (r: IpcMessage)
        ensures
            r == (IpcMessage { ttl: Some(ttl), ..self }),
    {
        IpcMessage { ttl: Some(ttl), ..self }
    }

    /// The message with priority `priority`.
    pub fn with_priority(self, priority: MessagePriority) -> (r: IpcMessage)
        ensures
            r == (IpcMessage { priority, ..self }),
    {
        IpcMessage { priority, ..self }
    }

    /// The message with type `message_type`.
    pub fn with_type(self, message_type: MessageType) -> (r: IpcMessage)
        ensures
            r == (IpcMessage { message_type, ..self }),
    {
        IpcMessage { message_type, ..self }
    }

    /// The message claiming the session `token`.
    pub fn with_session_token(self, token: &str) -> (r: IpcMessage)
        ensures
            same_but_token(self, r),
            r.session_token matches Some(t) && t@ == token@,
    {
        IpcMessage { session_token: Some(token.to_string()), ..self }
    }

    /// Whether the message is expired at time `now`.
    pub fn is_expired_at(&self, now: u64) -> (r: bool)
        ensures
            r == expired_at(self.timestamp, self.ttl, now),
    {
        match self.ttl {
            Some(ttl) => now as u128 > self.timestamp as u128 + ttl as u128,
            None => false,
        }
    }

    /// Whether the message is expired by the system clock. A message without time to live never
    /// is; when the clock cannot be read (it is earlier than the Unix epoch), a message with a
    /// time to live counts as expired.
    pub fn is_expired(&self) -> (r: bool)
        ensures
            self.ttl is None ==> !r,
    {
        match self.ttl {
            Some(_) => match unix_time_secs() {
                Ok(now) => self.is_expired_at(now),
                Err(_) => true,
            },
            None => false,
        }
    }

    /// A copy of the message.
    pub fn duplicate(&self) -> (r: IpcMessage)
        ensures
            same_message(*self, r),
    {
        IpcMessage {
            id: self.id.clone(),
            source: self.source.clone(),
            target: self.target.clone(),
            payload: slice_to_vec(self.payload.as_slice()),
            timestamp: self.timestamp,
            ttl: self.ttl,
            priority: self.priority,
            message_type: self.message_type,
            session_token: match &self.session_token {
                Some(t) => Some(t.clone()),
                None => None,
            },
        }
    }
}

/// A message whose payload is a shared buffer that is not copied.
pub struct ZeroCopyMessage {
    pub id: String,
    pub source: String,
    pub target: String,
    pub payload: bytes::Bytes,
    pub timestamp: u64,
    pub ttl: Option<u32>,
    pub priority: MessagePriority,
    pub message_type: MessageType,
}

impl ZeroCopyMessage {
    /// A message with the given identity and time around `payload`: no time to live, normal
    /// priority, as an event.
    pub fn from_parts(id: String, source: &str, target: &str, payload: bytes::Bytes, timestamp: u64) -> (r: ZeroCopyMessage)
        ensures
            r.id == id,
            r.source@ == source@,
            r.target@ == target@,
            r.payload == payload,
            r.timestamp == timestamp,
            r.ttl is None,
            r.priority == MessagePriority::Normal,
            r.message_type == MessageType::Event,
    {
        ZeroCopyMessage {
            id,
            source: source.to_string(),
            target: target.to_string(),
            payload,
            timestamp,
            ttl: None,
            priority: MessagePriority::Normal,
            message_type: MessageType::Event,
        }
    }

    /// A message from `source` to `target` around `payload`, with a fresh random id (a
    /// hyphenated v4 UUID), the current time in seconds (0 when the clock reads earlier than
    /// the Unix epoch), no time to live, normal priority, as an event. Fails only when the
    /// random source fails.
    pub fn new(source: &str, target: &str, payload: bytes::Bytes) -> (r: Result<ZeroCopyMessage, IpcError>)
        ensures
            r matches Ok(m) ==> {
                &&& m.source@ == source@
                &&& m.target@ == target@
                &&& m.payload == payload
                &&& is_uuid_v4(m.id@)
                &&& m.ttl is None
                &&& m.priority == MessagePriority::Normal
                &&& m.message_type == MessageType::Event
            },
            r matches Err(e) ==> (e matches IpcError::SecurityError(t) && t@ == id_failure_message()),
    {
        let id = match new_uuid_v4(&system_random()) {
            Some(id) => id,
            None => return Err(IpcError::SecurityError("Failed to generate message id: ring::error::Unspecified".to_string())),
        };
        let timestamp = now_or_epoch();
        Ok(ZeroCopyMessage::from_parts(id, source, target, payload, timestamp))
    }

    /// Whether the message is expired at time `now`.
    pub fn is_expired_at(&self, now: u64) -> (r: bool)
        ensures
            r == expired_at(self.timestamp, self.ttl, now),
    {
        match self.ttl {
            Some(ttl) => now as u128 > self.timestamp as u128 + ttl as u128,
            None => false,
        }
    }

    /// Whether the message is expired by the system clock; as `IpcMessage::is_expired`.
    pub fn is_expired(&self) -> (r: bool)
        ensures
            self.ttl is None ==> !r,
    {
        match self.ttl {
            Some(_) => match unix_time_secs() {
                Ok(now) => self.is_expired_at(now),
                Err(_) => true,
            },
            None => false,
        }
    }
}

/// A time to live counts seconds: a message with a time to live of `ttl` is not expired `ttl`
/// seconds after its timestamp or earlier, and is expired at every later second.
pub proof fn lemma_ttl_in_seconds(timestamp: u64, ttl: u32, now: u64)
    ensures
        expired_at(timestamp, Some(ttl), now) <==> now - timestamp > ttl,
{
}

/// Once expired, a message stays expired.
pub proof fn lemma_expiry_is_permanent(timestamp: u64, ttl: Option<u32>, now: u64, later: u64)
    requires
        expired_at(timestamp, ttl, now),
        now <= later,
    ensures
        expired_at(timestamp, ttl, later),
{
}

/// A message is never expired within its time to live, nor ever without one.
pub proof fn lemma_fresh_within_ttl(timestamp: u64, ttl: Option<u32>, now: u64)
    requires
        ttl matches Some(t) ==> now <= timestamp + t,
    ensures
        !expired_at(timestamp, ttl, now),
{
}

} // verus!
