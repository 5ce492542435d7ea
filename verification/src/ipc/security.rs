use super::message::{expired_at, IpcMessage};
use super::wire::{
    decode_encrypted_payload, encode_encrypted_payload, encrypted_payload_json, is_payload_text,
    lemma_compact_is_payload_text, lemma_payload_json_longer, signature_bytes, signature_data,
};
use super::IpcError;
use crate::clock::unix_time_secs;
use crate::crypto::{
    aes_256_gcm_seal, aes_gcm_max_input, aes_gcm_open, aes_gcm_seal, fill_random, hex_encode,
    hmac_sha256, hmac_sha256_tag, lower_hex, system_random,
};
use crate::name_map::NameMap;
use crate::storage::nonce_array;
use crate::text::{concat2, concat3, push_decimal, decimal};
use vstd::prelude::*;

verus! {

/// The settings and state of message security, as mathematical values.
pub struct SecurityView {
    pub encryption: bool,
    pub authentication: bool,
    pub encryption_key: Option<Seq<u8>>,
    pub signature_key: Option<Seq<u8>>,
    pub allowed_sources: Set<Seq<char>>,
    pub session_tokens: Set<Seq<char>>,
    pub max_message_age: u64,
}

/// Security for inter-process messages: source and age checks, session tokens, signatures and
/// payload encryption.
pub struct IpcSecurity {
    enable_encryption: bool,
    enable_authentication: bool,
    encryption_key: Option<[u8; 32]>,
    signature_key: Option<[u8; 32]>,
    rng: ring::rand::SystemRandom,
    allowed_sources: NameMap<()>,
    session_tokens: NameMap<()>,
    max_message_age_seconds: u64,
}

/// The key bytes of an optional key.
pub open spec fn key_view(k: Option<[u8; 32]>) -> Option<Seq<u8>> {
    match k {
        Some(a) => Some(a@),
        None => None,
    }
}

/// The outcome of checking a message.
pub enum Verdict {
    Accepted,
    EmptySource,
    EmptyTarget,
    SourceNotAllowed,
    Expired,
    TooOld,
}

/// Whether the allow-list admits `source`: an empty list admits every source.
pub open spec fn source_admitted(s: SecurityView, source: Seq<char>) -> bool {
    s.allowed_sources == Set::<Seq<char>>::empty() || s.allowed_sources.contains(source)
}

/// The checks on a message that do not depend on the time, in order: without authentication
/// every message passes.
pub open spec fn field_verdict(s: SecurityView, m: IpcMessage) -> Verdict {
    if !s.authentication {
        Verdict::Accepted
    } else if m.source@.len() == 0 {
        Verdict::EmptySource
    } else if m.target@.len() == 0 {
        Verdict::EmptyTarget
    } else if !source_admitted(s, m.source@) {
        Verdict::SourceNotAllowed
    } else {
        Verdict::Accepted
    }
}

/// All checks on a message at time `now`: the field checks, then expiry by its time to live,
/// then an age (time since its timestamp) above the maximum.
pub open spec fn message_verdict(s: SecurityView, m: IpcMessage, now: u64) -> Verdict {
    if field_verdict(s, m) != Verdict::Accepted || !s.authentication {
        field_verdict(s, m)
    } else if expired_at(m.timestamp, m.ttl, now) {
        Verdict::Expired
    } else if message_age(now, m.timestamp) > s.max_message_age {
        Verdict::TooOld
    } else {
        Verdict::Accepted
    }
}

/// The age of a message with timestamp `timestamp` at time `now`, in seconds: zero for a
/// timestamp later than `now`, as from a sender whose clock runs ahead.
pub open spec fn message_age(now: u64, timestamp: u64) -> nat {
    if timestamp <= now {
        (now - timestamp) as nat
    } else {
        0
    }
}

/// Whether `r` is the result that a verdict stands for.
pub open spec fn reports(r: Result<(), IpcError>, v: Verdict, m: IpcMessage) -> bool {
    match v {
        Verdict::Accepted => r is Ok,
        Verdict::EmptySource => r matches Err(IpcError::SecurityError(t)) && t@ == "Message source cannot be empty"@,
        Verdict::EmptyTarget => r matches Err(IpcError::SecurityError(t)) && t@ == "Message target cannot be empty"@,
        Verdict::SourceNotAllowed => r matches Err(IpcError::CapabilityError(t))
            && t@ == "Source '"@ + m.source@ + "' is not in allowed sources"@,
        Verdict::Expired => r matches Err(IpcError::MessageExpired),
        Verdict::TooOld => r matches Err(IpcError::MessageExpired),
    }
}

/// The outcome of checking a message for a hijacked connection at time `now`.
pub enum HijackVerdict {
    Clean,
    TooOld,
    MissingToken,
    InvalidToken,
}

/// The hijacking checks, in order: without authentication every message passes; then an age
/// above the maximum, a missing session token, a session token that is not current.
pub open spec fn hijack_verdict(s: SecurityView, m: IpcMessage, now: u64) -> HijackVerdict {
    if !s.authentication {
        HijackVerdict::Clean
    } else if message_age(now, m.timestamp) > s.max_message_age {
        HijackVerdict::TooOld
    } else {
        match m.session_token {
            None => HijackVerdict::MissingToken,
            Some(t) => if s.session_tokens.contains(t@) { HijackVerdict::Clean } else { HijackVerdict::InvalidToken },
        }
    }
}

/// The message of the error for a message older than the maximum age.
pub open spec fn too_old_message(age: nat, max: nat) -> Seq<char> {
    "Message timestamp is too old ("@ + decimal(age) + "s > "@ + decimal(max) + "s), possible connection hijacking"@
}

/// Whether `r` is the result that a hijacking verdict stands for.
pub open spec fn hijack_reports(r: Result<(), IpcError>, v: HijackVerdict, s: SecurityView, m: IpcMessage, now: u64) -> bool {
    match v {
        HijackVerdict::Clean => r is Ok,
        HijackVerdict::TooOld => r matches Err(IpcError::ConnectionHijacked(t))
            && t@ == too_old_message(message_age(now, m.timestamp), s.max_message_age as nat),
        HijackVerdict::MissingToken => r matches Err(IpcError::ConnectionHijacked(t)) && t@ == "Missing session token"@,
        HijackVerdict::InvalidToken => r matches Err(IpcError::ConnectionHijacked(t)) && t@ == "Invalid session token"@,
    }
}

/// Whether `r` refuses a message because the clock cannot be read.
pub open spec fn clock_refusal(r: Result<(), IpcError>) -> bool {
    ||| (r matches Err(IpcError::SecurityError(m)) && exists|e: Seq<char>| m@ == #[trigger] ("Failed to get system time: "@ + e))
}

/// The HMAC-SHA-256 signature of a message under `key`: over its id, source, target, payload
/// and timestamp.
pub open spec fn message_signature(key: Seq<u8>, m: IpcMessage) -> Seq<u8> {
    hmac_sha256(key, signature_data(m.id@, m.source@, m.target@, m.payload@, m.timestamp))
}

/// Whether `signature` is the signature of `m` under `key`.
pub open spec fn signature_valid(key: Seq<u8>, m: IpcMessage, signature: Seq<u8>) -> bool {
    message_signature(key, m) == signature
}

/// Whether two messages agree on all but their payload.
pub open spec fn same_but_payload(a: IpcMessage, b: IpcMessage) -> bool {
    &&& a.id == b.id
    &&& a.source == b.source
    &&& a.target == b.target
    &&& a.timestamp == b.timestamp
    &&& a.ttl == b.ttl
    &&& a.priority == b.priority
    &&& a.message_type == b.message_type
    &&& a.session_token == b.session_token
}

/// The payload that encrypting a payload under `key` with `nonce` gives: the JSON text of the
/// nonce and the AES-256-GCM sealing of the payload.
pub open spec fn encrypted_payload(key: Seq<u8>, nonce: Seq<u8>, payload: Seq<u8>) -> Seq<u8> {
    encrypted_payload_json(nonce, aes_256_gcm_seal(key, nonce, payload))
}

impl View for IpcSecurity {
    type V = SecurityView;

    closed spec fn view(&self) -> SecurityView {
        SecurityView {
            encryption: self.enable_encryption,
            authentication: self.enable_authentication,
            encryption_key: key_view(self.encryption_key),
            signature_key: key_view(self.signature_key),
            allowed_sources: self.allowed_sources.view().dom(),
            session_tokens: self.session_tokens.view().dom(),
            max_message_age: self.max_message_age_seconds,
        }
    }
}

impl IpcSecurity {
    #[verifier::type_invariant]
    closed spec fn inv(self) -> bool {
        self.allowed_sources.wf() && self.session_tokens.wf()
    }

    /// No encryption, no authentication, no keys, no allowed sources listed, no session tokens,
    /// a maximum message age of 300 seconds.
    pub fn new() -> (r: IpcSecurity)
        ensures
            r@ == (SecurityView {
                encryption: false,
                authentication: false,
                encryption_key: None,
                signature_key: None,
                allowed_sources: Set::empty(),
                session_tokens: Set::empty(),
                max_message_age: 300,
            }),
    {
        IpcSecurity {
            enable_encryption: false,
            enable_authentication: false,
            encryption_key: None,
            signature_key: None,
            rng: system_random(),
            allowed_sources: NameMap::new(),
            session_tokens: NameMap::new(),
            max_message_age_seconds: 300,
        }
    }

    /// Encryption of payloads on or off.
    pub fn with_encryption(self, enable: bool) -> (r: IpcSecurity)
        ensures
            r@ == (SecurityView { encryption: enable, ..self@ }),
    {
        proof { use_type_invariant(&self); }
        IpcSecurity { enable_encryption: enable, ..self }
    }

    /// Uses `key` both to encrypt and to sign. A 32-byte key always suits both, so this never
    /// fails.
    pub fn with_key(self, key: &[u8; 32]) -> (r: Result<IpcSecurity, IpcError>)
        ensures
            r matches Ok(s) && s@ == (SecurityView { encryption_key: Some(key@), signature_key: Some(key@), ..self@ }),
    {
        proof { use_type_invariant(&self); }
        Ok(IpcSecurity { encryption_key: Some(*key), signature_key: Some(*key), ..self })
    }

    /// Authentication checks on or off.
    pub fn with_authentication(self, enable: bool) -> (r: IpcSecurity)
        ensures
            r@ == (SecurityView { authentication: enable, ..self@ }),
    {
        proof { use_type_invariant(&self); }
        IpcSecurity { enable_authentication: enable, ..self }
    }

    /// The maximum age of a message, in seconds.
    pub fn with_max_message_age(self, max_age_seconds: u64) -> (r: IpcSecurity)
        ensures
            r@ == (SecurityView { max_message_age: max_age_seconds, ..self@ }),
    {
        proof { use_type_invariant(&self); }
        IpcSecurity { max_message_age_seconds: max_age_seconds, ..self }
    }

    /// Admits `source` when sources are checked.
    pub fn add_allowed_source(&mut self, source: &str)
        ensures
            final(self)@ == (SecurityView { allowed_sources: old(self)@.allowed_sources.insert(source@), ..old(self)@ }),
    {
        proof { use_type_invariant(&*self); }
        let mut m = NameMap::new();
        std::mem::swap(&mut m, &mut self.allowed_sources);
        m.insert(source, ());
        self.allowed_sources = m;
    }

    /// No longer admits `source` by name.
    pub fn remove_allowed_source(&mut self, source: &str)
        ensures
            final(self)@ == (SecurityView { allowed_sources: old(self)@.allowed_sources.remove(source@), ..old(self)@ }),
    {
        proof { use_type_invariant(&*self); }
        let mut m = NameMap::new();
        std::mem::swap(&mut m, &mut self.allowed_sources);
        let _ = m.remove(source);
        self.allowed_sources = m;
    }

    /// Makes the session token written as the lower-case hex of `token_bytes` current, and
    /// returns it.
    pub fn register_session_token(&mut self, token_bytes: &[u8; 32]) -> (r: String)
        ensures
            r@ == lower_hex(token_bytes@),
            final(self)@ == (SecurityView { session_tokens: old(self)@.session_tokens.insert(r@), ..old(self)@ }),
    {
        proof { use_type_invariant(&*self); }
        let token = hex_encode(token_bytes.as_slice());
        let mut m = NameMap::new();
        std::mem::swap(&mut m, &mut self.session_tokens);
        m.insert(token.as_str(), ());
        self.session_tokens = m;
        token
    }

    /// Makes a fresh session token current: 32 random bytes in lower-case hex. Fails, changing
    /// nothing, when the random source fails.
    pub fn generate_session_token(&mut self) -> (r: Result<String, IpcError>)
        ensures
            r matches Ok(t) ==> (exists|b: Seq<u8>| b.len() == 32 && t@ == lower_hex(b))
                && final(self)@ == (SecurityView { session_tokens: old(self)@.session_tokens.insert(t@), ..old(self)@ }),
            r matches Err(e) ==> final(self)@ == old(self)@ && (e matches IpcError::SecurityError(m)
                && m@ == "Failed to generate session token: ring::error::Unspecified"@),
    {
        let mut buf: Vec<u8> = vec![0u8; 32];
        if !fill_random(&self.rng, &mut buf) {
            return Err(IpcError::SecurityError("Failed to generate session token: ring::error::Unspecified".to_string()));
        }
        let bytes: [u8; 32] = [
            buf[0], buf[1], buf[2], buf[3], buf[4], buf[5], buf[6], buf[7],
            buf[8], buf[9], buf[10], buf[11], buf[12], buf[13], buf[14], buf[15],
            buf[16], buf[17], buf[18], buf[19], buf[20], buf[21], buf[22], buf[23],
            buf[24], buf[25], buf[26], buf[27], buf[28], buf[29], buf[30], buf[31],
        ];
        let token = self.register_session_token(&bytes);
        Ok(token)
    }

    /// Whether `token` is a current session token.
    pub fn validate_session_token(&self, token: &str) -> (r: bool)
        ensures
            r == self@.session_tokens.contains(token@),
    {
        proof { use_type_invariant(self); }
        self.session_tokens.contains(token)
    }

    /// Ends the session of `token`.
    pub fn revoke_session_token(&mut self, token: &str)
        ensures
            final(self)@ == (SecurityView { session_tokens: old(self)@.session_tokens.remove(token@), ..old(self)@ }),
    {
        proof { use_type_invariant(&*self); }
        let mut m = NameMap::new();
        std::mem::swap(&mut m, &mut self.session_tokens);
        let _ = m.remove(token);
        self.session_tokens = m;
    }

    /// The checks on a message that do not depend on the time.
    fn check_fields(&self, message: &IpcMessage) -> (r: Result<(), IpcError>)
        ensures
            reports(r, field_verdict(self@, *message), *message),
    {
        proof { use_type_invariant(self); }
        if self.enable_authentication {
            if message.source.as_str().unicode_len() == 0 {
                return Err(IpcError::SecurityError("Message source cannot be empty".to_string()));
            }
            if message.target.as_str().unicode_len() == 0 {
                return Err(IpcError::SecurityError("Message target cannot be empty".to_string()));
            }
            if !self.allowed_sources.is_empty() && !self.allowed_sources.contains(message.source.as_str()) {
                return Err(IpcError::CapabilityError(
                    concat3("Source '", message.source.as_str(), "' is not in allowed sources"),
                ));
            }
        }
        Ok(())
    }

    /// Checks a message at time `now`; see `message_verdict`. A timestamp later than `now` gives
    /// an age of zero (see `message_age`).
    pub fn validate_message_at(&self, message: &IpcMessage, now: u64) -> (r: Result<(), IpcError>)
        ensures
            reports(r, message_verdict(self@, *message, now), *message),
    {
        let fields = self.check_fields(message);
        if fields.is_err() || !self.enable_authentication {
            return fields;
        }
        if message.is_expired_at(now) {
            return Err(IpcError::MessageExpired);
        }
        if age_at(now, message.timestamp) > self.max_message_age_seconds {
            return Err(IpcError::MessageExpired);
        }
        Ok(())
    }

    /// Checks a message by the system clock. Without authentication every message passes
    /// without reading the clock; the field checks come first. When the clock cannot be read,
    /// the message is refused with the reason.
    pub fn validate_message(&self, message: &IpcMessage) -> (r: Result<(), IpcError>)
        ensures
            field_verdict(self@, *message) != Verdict::Accepted ==> reports(r, field_verdict(self@, *message), *message),
            !self@.authentication ==> r is Ok,
            (exists|now: u64| reports(r, #[trigger] message_verdict(self@, *message, now), *message)) || clock_refusal(r),
    {
        let fields = self.check_fields(message);
        if fields.is_err() || !self.enable_authentication {
            assert(reports(fields, message_verdict(self@, *message, 0), *message));
            return fields;
        }
        let now = match unix_time_secs() {
            Ok(t) => t,
            Err(e) => return Err(IpcError::SecurityError(concat2("Failed to get system time: ", e.as_str()))),
        };
        self.validate_message_at(message, now)
    }

    /// Checks a message for signs of a hijacked connection at time `now`; see `hijack_verdict`.
    pub fn detect_connection_hijacking_at(&self, message: &IpcMessage, now: u64) -> (r: Result<(), IpcError>)
        ensures
            hijack_reports(r, hijack_verdict(self@, *message, now), self@, *message, now),
    {
        proof { use_type_invariant(self); }
        if self.enable_authentication {
            let age = age_at(now, message.timestamp);
            if age > self.max_message_age_seconds {
                let mut t = "Message timestamp is too old (".to_string();
                push_decimal(&mut t, age);
                t.append("s > ");
                push_decimal(&mut t, self.max_message_age_seconds);
                t.append("s), possible connection hijacking");
                return Err(IpcError::ConnectionHijacked(t));
            }
            match &message.session_token {
                None => return Err(IpcError::ConnectionHijacked("Missing session token".to_string())),
                Some(token) => {
                    if !self.session_tokens.contains(token.as_str()) {
                        return Err(IpcError::ConnectionHijacked("Invalid session token".to_string()));
                    }
                },
            }
        }
        Ok(())
    }

    /// Checks a message for signs of a hijacked connection by the system clock. Without
    /// authentication every message passes without reading the clock. When the clock cannot be
    /// read, the message is refused with the reason.
    pub fn detect_connection_hijacking(&self, message: &IpcMessage) -> (r: Result<(), IpcError>)
        ensures
            !self@.authentication ==> r is Ok,
            (exists|now: u64| hijack_reports(r, #[trigger] hijack_verdict(self@, *message, now), self@, *message, now))
                || clock_refusal(r),
            self@.authentication && message.session_token is None ==> r is Err,
            self@.authentication && (message.session_token matches Some(t) && !self@.session_tokens.contains(t@))
                ==> r is Err,
    {
        if !self.enable_authentication {
            assert(hijack_verdict(self@, *message, 0) == HijackVerdict::Clean);
            return Ok(());
        }
        let now = match unix_time_secs() {
            Ok(t) => t,
            Err(e) => return Err(IpcError::SecurityError(concat2("Failed to get system time: ", e.as_str()))),
        };
        self.detect_connection_hijacking_at(message, now)
    }

    /// The signature of `message` under the signing key: HMAC-SHA-256 over its id, source,
    /// target, payload and timestamp. An error when no key is set.
    pub fn sign_message(&self, message: &IpcMessage) -> (r: Result<Vec<u8>, IpcError>)
        ensures
            match self@.signature_key {
                Some(k) => r matches Ok(sig) && sig@ == message_signature(k, *message) && sig@.len() == 32,
                None => r matches Err(IpcError::SecurityError(t)) && t@ == "Signature key not set for signing"@,
            },
    {
        match &self.signature_key {
            Some(key) => {
                let data = signature_bytes(
                    message.id.as_str(),
                    message.source.as_str(),
                    message.target.as_str(),
                    message.payload.as_slice(),
                    message.timestamp,
                );
                Ok(hmac_sha256_tag(key.as_slice(), data.as_slice()))
            },
            None => Err(IpcError::SecurityError("Signature key not set for signing".to_string())),
        }
    }

    /// Whether `signature` is the signature of `message` under the signing key. An error when no
    /// key is set.
    pub fn verify_signature(&self, message: &IpcMessage, signature: &[u8]) -> (r: Result<bool, IpcError>)
        ensures
            match self@.signature_key {
                Some(k) => r == Ok::<bool, IpcError>(signature_valid(k, *message, signature@)),
                None => r matches Err(IpcError::SecurityError(t)) && t@ == "Signature key not set for verification"@,
            },
    {
        match &self.signature_key {
            Some(key) => {
                let data = signature_bytes(
                    message.id.as_str(),
                    message.source.as_str(),
                    message.target.as_str(),
                    message.payload.as_slice(),
                    message.timestamp,
                );
                let expected = hmac_sha256_tag(key.as_slice(), data.as_slice());
                Ok(same_bytes(expected.as_slice(), signature))
            },
            None => Err(IpcError::SecurityError("Signature key not set for verification".to_string())),
        }
    }

    /// Encrypts the payload of `message` under `nonce`, when encryption is on: the payload becomes
    /// the JSON text of the nonce and the sealed payload. Errors, changing nothing: encryption on
    /// without a key; a payload longer than AES-GCM allows.
    pub fn encrypt_message_with_nonce(&self, message: &mut IpcMessage, nonce: &[u8; 12]) -> (r: Result<(), IpcError>)
        ensures
            same_but_payload(*old(message), *final(message)),
            !self@.encryption ==> r is Ok && final(message).payload == old(message).payload,
            self@.encryption && self@.encryption_key is None ==> final(message).payload == old(message).payload
                && (r matches Err(IpcError::SecurityError(t)) && t@ == "Encryption key not set"@),
            self@.encryption ==> match self@.encryption_key {
                None => true,
                Some(k) => if old(message).payload@.len() <= aes_gcm_max_input() {
                    &&& r is Ok
                    &&& final(message).payload@ == encrypted_payload(k, nonce@, old(message).payload@)
                    &&& aes_256_gcm_seal(k, nonce@, old(message).payload@).len() == old(message).payload@.len() + 16
                    &&& final(message).payload@.len() > old(message).payload@.len() + 16
                } else {
                    final(message).payload == old(message).payload
                        && (r matches Err(IpcError::SecurityError(t)) && t@ == "Encryption failed: ring::error::Unspecified"@)
                },
            },
    {
        if !self.enable_encryption {
            return Ok(());
        }
        match &self.encryption_key {
            None => Err(IpcError::SecurityError("Encryption key not set".to_string())),
            Some(key) => {
                match aes_gcm_seal(key, nonce, message.payload.as_slice()) {
                    Some(ciphertext) => {
                        proof { lemma_payload_json_longer(nonce@, ciphertext@); }
                        message.payload = encode_encrypted_payload(nonce.as_slice(), ciphertext.as_slice());
                        Ok(())
                    },
                    None => Err(IpcError::SecurityError("Encryption failed: ring::error::Unspecified".to_string())),
                }
            },
        }
    }

    /// Encrypts the payload of `message` under a fresh random nonce, when encryption is on.
    pub fn encrypt_message(&self, message: &mut IpcMessage) -> (r: Result<(), IpcError>)
        ensures
            same_but_payload(*old(message), *final(message)),
            !self@.encryption ==> r is Ok && final(message).payload == old(message).payload,
            r is Err ==> final(message).payload == old(message).payload,
            self@.encryption && r is Ok ==> match self@.encryption_key {
                None => false,
                Some(k) => exists|n: Seq<u8>| n.len() == 12
                    && #[trigger] encrypted_payload(k, n, old(message).payload@) == final(message).payload@
                    && aes_256_gcm_seal(k, n, old(message).payload@).len() == old(message).payload@.len() + 16,
            },
            self@.encryption && r is Ok ==> final(message).payload@.len() > old(message).payload@.len() + 16,
            self@.encryption && self@.encryption_key is None ==> (r matches Err(IpcError::SecurityError(t))
                && t@ == "Encryption key not set"@),
            self@.encryption && self@.encryption_key is Some ==> match r {
                Ok(_) => true,
                Err(IpcError::SecurityError(t)) => t@ == "Failed to generate nonce: ring::error::Unspecified"@
                    || t@ == "Encryption failed: ring::error::Unspecified"@,
                Err(_) => false,
            },
            self@.encryption && self@.encryption_key is Some && old(message).payload@.len() > aes_gcm_max_input()
                ==> r is Err,
            self@.encryption && self@.encryption_key is Some && old(message).payload@.len() <= aes_gcm_max_input()
                ==> match r {
                    Ok(_) => true,
                    Err(IpcError::SecurityError(t)) => t@ == "Failed to generate nonce: ring::error::Unspecified"@,
                    Err(_) => false,
                },
    {
        if !self.enable_encryption {
            return Ok(());
        }
        if self.encryption_key.is_none() {
            return Err(IpcError::SecurityError("Encryption key not set".to_string()));
        }
        let mut buf: Vec<u8> = vec![0u8; 12];
        if !fill_random(&self.rng, &mut buf) {
            return Err(IpcError::SecurityError("Failed to generate nonce: ring::error::Unspecified".to_string()));
        }
        let nonce = nonce_array(&buf);
        self.encrypt_message_with_nonce(message, &nonce)
    }

    /// Decrypts the payload of `message`, when encryption is on: the payload must be the JSON text
    /// of a 12-byte nonce and a sealed payload, and becomes the plaintext. What encryption made
    /// under the same key decrypts to the payload it had before. On an error nothing changes.
    pub fn decrypt_message(&self, message: &mut IpcMessage) -> (r: Result<(), IpcError>)
        ensures
            same_but_payload(*old(message), *final(message)),
            !self@.encryption ==> r is Ok && final(message).payload == old(message).payload,
            r is Err ==> final(message).payload == old(message).payload,
            self@.encryption && self@.encryption_key is None ==> (r matches Err(IpcError::SecurityError(t))
                && t@ == "Encryption key not set"@),
            self@.encryption ==> match self@.encryption_key {
                None => true,
                Some(k) => forall|n: Seq<u8>, p: Seq<u8>|
                    n.len() == 12 && p.len() <= aes_gcm_max_input()
                    && #[trigger] encrypted_payload(k, n, p) == old(message).payload@
                    ==> r is Ok && final(message).payload@ == p,
            },
            self@.encryption && self@.encryption_key is Some
                && (forall|n: Seq<u8>, c: Seq<u8>| !#[trigger] is_payload_text(old(message).payload@, n, c))
                ==> (r matches Err(IpcError::SecurityError(t))
                    && t@ == "Failed to deserialize encrypted data: not the JSON text of an encrypted payload"@),
            self@.encryption && self@.encryption_key is Some ==> forall|n: Seq<u8>, c: Seq<u8>|
                #[trigger] is_payload_text(old(message).payload@, n, c) ==> if n.len() != 12 {
                    r matches Err(IpcError::SecurityError(t)) && t@ == "Invalid nonce length"@
                } else {
                    match r {
                        Ok(_) => final(message).payload@.len() + 16 == c.len(),
                        Err(IpcError::SecurityError(t)) => t@ == "Decryption failed: ring::error::Unspecified"@,
                        Err(_) => false,
                    }
                },
            self@.encryption ==> match self@.encryption_key {
                None => true,
                Some(k) => forall|n: Seq<u8>, c: Seq<u8>|
                    #[trigger] is_payload_text(old(message).payload@, n, c) && n.len() == 12 ==> {
                        &&& r is Ok ==> final(message).payload@.len() <= aes_gcm_max_input()
                            && aes_256_gcm_seal(k, n, final(message).payload@) == c
                        &&& forall|p: Seq<u8>| p.len() <= aes_gcm_max_input() && #[trigger] aes_256_gcm_seal(k, n, p) == c
                            ==> r is Ok && final(message).payload@ == p
                    },
            },
    {
        if !self.enable_encryption {
            return Ok(());
        }
        match &self.encryption_key {
            None => Err(IpcError::SecurityError("Encryption key not set".to_string())),
            Some(key) => {
                proof {
                    assert forall|n: Seq<u8>, c: Seq<u8>| #[trigger] encrypted_payload_json(n, c) == message.payload@
                        implies is_payload_text(message.payload@, n, c) by {
                        lemma_compact_is_payload_text(n, c);
                    }
                }
                let (nonce, ciphertext) = match decode_encrypted_payload(message.payload.as_slice()) {
                    Some(x) => x,
                    None => return Err(IpcError::SecurityError(
                        "Failed to deserialize encrypted data: not the JSON text of an encrypted payload".to_string(),
                    )),
                };
                if nonce.len() != 12 {
                    return Err(IpcError::SecurityError("Invalid nonce length".to_string()));
                }
                let n = nonce_array(&nonce);
                match aes_gcm_open(key, &n, ciphertext.as_slice()) {
                    Some(plaintext) => {
                        message.payload = plaintext;
                        Ok(())
                    },
                    None => Err(IpcError::SecurityError("Decryption failed: ring::error::Unspecified".to_string())),
                }
            },
        }
    }
}

impl Default for IpcSecurity {
    fn default() -> (r: IpcSecurity)
        ensures
            r@ == (SecurityView {
                encryption: false,
                authentication: false,
                encryption_key: None,
                signature_key: None,
                allowed_sources: Set::empty(),
                session_tokens: Set::empty(),
                max_message_age: 300,
            }),
    {
        IpcSecurity::new()
    }
}

/// The age of a message at time `now`: zero when its timestamp is later.
fn age_at(now: u64, timestamp: u64) -> (r: u64)
    ensures
        r == message_age(now, timestamp),
{
    if timestamp <= now {
        now - timestamp
    } else {
        0
    }
}

/// Whether two byte strings are equal. Strings of one length are compared in full, whatever
/// their bytes, so the time taken does not tell where they first differ.
fn same_bytes(a: &[u8], b: &[u8]) -> (r: bool)
    ensures
        r == (a@ == b@),
{
    if a.len() != b.len() {
        return false;
    }
    let mut diff: u8 = 0;
    let mut i: usize = 0;
    while i < a.len()
        invariant
            a@.len() == b@.len(),
            i <= a@.len(),
            (diff == 0) <==> (forall|j: int| 0 <= j < i ==> a@[j] == b@[j]),
        decreases a@.len() - i,
    {
        let x = a[i];
        let y = b[i];
        let d = diff;
        assert(((d | (x ^ y)) == 0) <==> (d == 0 && x == y)) by (bit_vector);
        diff = d | (x ^ y);
        i = i + 1;
    }
    if diff == 0 {
        assert(a@ =~= b@);
        true
    } else {
        false
    }
}

/// A signature made for a message under a key verifies for that message under that key.
pub proof fn lemma_signature_round_trip(key: Seq<u8>, m: IpcMessage)
    ensures
        signature_valid(key, m, message_signature(key, m)),
{
}

/// Session tokens: a token that is registered is current until it is revoked, and a revoked
/// token is no longer current, whatever other tokens there are.
pub proof fn lemma_session_token_lifecycle(s: SecurityView, t: Seq<char>)
    ensures
        (SecurityView { session_tokens: s.session_tokens.insert(t), ..s }).session_tokens.contains(t),
        !(SecurityView { session_tokens: s.session_tokens.remove(t), ..s }).session_tokens.contains(t),
        forall|u: Seq<char>| u != t ==> (s.session_tokens.remove(t).contains(u) <==> s.session_tokens.contains(u)),
{
}

/// A signature covers the id, source, target, payload and timestamp only: messages that agree on
/// those share their signatures, whatever their time to live, priority, type or session token.
pub proof fn lemma_signature_scope(key: Seq<u8>, a: IpcMessage, b: IpcMessage)
    requires
        a.id@ == b.id@,
        a.source@ == b.source@,
        a.target@ == b.target@,
        a.payload@ == b.payload@,
        a.timestamp == b.timestamp,
    ensures
        message_signature(key, a) == message_signature(key, b),
{
}

/// Without authentication, no message is refused and no connection is taken for hijacked.
pub proof fn lemma_no_authentication_accepts(s: SecurityView, m: IpcMessage, now: u64)
    requires
        !s.authentication,
    ensures
        message_verdict(s, m, now) == Verdict::Accepted,
        hijack_verdict(s, m, now) == HijackVerdict::Clean,
{
}

/// A message checked at the moment it was made passes when its source and target are not empty
/// and its source is admitted; it passes the hijacking checks too when it carries a current
/// session token.
pub proof fn lemma_fresh_message_accepted(s: SecurityView, m: IpcMessage)
    requires
        m.source@.len() > 0,
        m.target@.len() > 0,
        source_admitted(s, m.source@),
    ensures
        message_verdict(s, m, m.timestamp) == Verdict::Accepted,
        (m.session_token matches Some(t) && s.session_tokens.contains(t@))
            ==> hijack_verdict(s, m, m.timestamp) == HijackVerdict::Clean,
{
}

/// A message whose timestamp is later than the check's time, from a sender whose clock runs
/// ahead, counts as brand new: it passes the checks when its fields pass, and is never taken
/// for a hijacked connection on account of its age.
pub proof fn lemma_future_timestamp(s: SecurityView, m: IpcMessage, now: u64)
    requires
        m.timestamp > now,
    ensures
        message_age(now, m.timestamp) == 0,
        field_verdict(s, m) == Verdict::Accepted ==> message_verdict(s, m, now) == Verdict::Accepted,
        hijack_verdict(s, m, now) != HijackVerdict::TooOld,
{
}

/// A message with a time to live that is checked more than that many seconds after its
/// timestamp is refused as expired, whenever its fields pass; checking it earlier does not
/// refuse it as expired.
pub proof fn lemma_ttl_expiry_refused(s: SecurityView, m: IpcMessage, now: u64, ttl: u32)
    requires
        s.authentication,
        field_verdict(s, m) == Verdict::Accepted,
        m.ttl == Some(ttl),
    ensures
        now > m.timestamp + ttl ==> message_verdict(s, m, now) == Verdict::Expired,
        now <= m.timestamp + ttl ==> message_verdict(s, m, now) != Verdict::Expired,
{
}

/// With authentication on, a message older than the maximum age is taken for a hijacked
/// connection as too old, whatever session token it carries, current, revoked or none.
pub proof fn lemma_old_message_hijacked(s: SecurityView, m: IpcMessage, now: u64, token: Option<String>)
    requires
        s.authentication,
        m.timestamp <= now,
        now - m.timestamp > s.max_message_age,
    ensures
        hijack_verdict(s, m, now) == HijackVerdict::TooOld,
        hijack_verdict(s, IpcMessage { session_token: token, ..m }, now) == HijackVerdict::TooOld,
{
}

/// With an allow-list, only listed sources pass.
pub proof fn lemma_allow_list(s: SecurityView, m: IpcMessage, now: u64)
    requires
        s.authentication,
        s.allowed_sources != Set::<Seq<char>>::empty(),
        !s.allowed_sources.contains(m.source@),
    ensures
        message_verdict(s, m, now) != Verdict::Accepted,
{
}

/// A message older than the maximum age is refused, and taken for a hijacked connection.
pub proof fn lemma_too_old_refused(s: SecurityView, m: IpcMessage, now: u64)
    requires
        s.authentication,
        field_verdict(s, m) == Verdict::Accepted,
        message_age(now, m.timestamp) > s.max_message_age,
    ensures
        message_verdict(s, m, now) != Verdict::Accepted,
        hijack_verdict(s, m, now) == HijackVerdict::TooOld,
{
}

/// A revoked session token no longer passes: after revocation, a message carrying it is taken
/// for a hijacked connection unless it is already refused as too old.
pub proof fn lemma_revoked_token_refused(s: SecurityView, m: IpcMessage, now: u64, t: String)
    requires
        s.authentication,
        m.session_token == Some(t),
    ensures
        hijack_verdict(SecurityView { session_tokens: s.session_tokens.remove(t@), ..s }, m, now)
            != HijackVerdict::Clean,
{
}

} // verus!
