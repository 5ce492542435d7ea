use hmac::{Hmac, Mac};
use moda_core::ipc::{IpcError, IpcMessage, IpcSecurity};
use moda_core::ipc::wire::{decode_encrypted_payload, encode_encrypted_payload, signature_bytes};
use sha2::Sha256;
use std::time::{SystemTime, UNIX_EPOCH};

#[test]
fn test_message_validation() {
    let security = IpcSecurity::new().with_authentication(true);

    let message = IpcMessage::new("source", "target", vec![1, 2, 3]).unwrap();
    assert!(security.validate_message(&message).is_ok());

    let mut empty_source_message = message.clone();
    empty_source_message.source = String::new();
    assert!(security.validate_message(&empty_source_message).is_err());
}

#[test]
fn test_encryption() {
    let key = [0u8; 32];
    let security = IpcSecurity::new().with_encryption(true).with_key(&key).unwrap();

    let mut message = IpcMessage::new("source", "target", vec![1, 2, 3]).unwrap();
    let original_payload = message.payload.clone();

    security.encrypt_message(&mut message).unwrap();
    assert_ne!(message.payload, original_payload);

    security.decrypt_message(&mut message).unwrap();
    assert_eq!(message.payload, original_payload);
}

#[test]
fn test_source_validation() {
    let mut security = IpcSecurity::new().with_authentication(true);
    security.add_allowed_source("allowed_source");

    let message = IpcMessage::new("allowed_source", "target", vec![1, 2, 3]).unwrap();
    assert!(security.validate_message(&message).is_ok());

    let message = IpcMessage::new("disallowed_source", "target", vec![1, 2, 3]).unwrap();
    assert!(security.validate_message(&message).is_err());
}

#[test]
fn test_session_token() {
    let mut security = IpcSecurity::new();
    let token = security.generate_session_token().unwrap();
    assert!(security.validate_session_token(&token));

    security.revoke_session_token(&token);
    assert!(!security.validate_session_token(&token));
}

#[test]
fn test_detect_connection_hijacking() {
    let mut security = IpcSecurity::new().with_authentication(true);
    let token = security.generate_session_token().unwrap();

    let message = IpcMessage::new("source", "target", vec![1, 2, 3]).unwrap().with_session_token(&token);
    assert!(security.detect_connection_hijacking(&message).is_ok());

    let invalid_message = IpcMessage::new("source", "target", vec![1, 2, 3]).unwrap().with_session_token("invalid_token");
    assert!(security.detect_connection_hijacking(&invalid_message).is_err());

    let no_token_message = IpcMessage::new("source", "target", vec![1, 2, 3]).unwrap();
    assert!(security.detect_connection_hijacking(&no_token_message).is_err());
}

#[test]
fn test_custom_max_message_age() {
    let mut security = IpcSecurity::new().with_authentication(true).with_max_message_age(60);

    let token = security.generate_session_token().unwrap();
    let message = IpcMessage::new("source", "target", vec![1, 2, 3]).unwrap().with_session_token(&token);

    assert!(security.detect_connection_hijacking(&message).is_ok());
}

#[test]
fn test_sign_and_verify() {
    let key = [0u8; 32];
    let security = IpcSecurity::new().with_authentication(true).with_key(&key).unwrap();

    let message = IpcMessage::new("source", "target", vec![1, 2, 3]).unwrap();
    let signature = security.sign_message(&message).unwrap();

    let is_valid = security.verify_signature(&message, &signature).unwrap();
    assert!(is_valid);

    let mut tampered_message = message.clone();
    tampered_message.payload = vec![4, 5, 6];
    let is_valid_tampered = security.verify_signature(&tampered_message, &signature).unwrap();
    assert!(!is_valid_tampered);
}

#[test]
fn test_validate_message_with_max_age() {
    let security = IpcSecurity::new().with_authentication(true).with_max_message_age(1);

    let message = IpcMessage::new("source", "target", vec![1, 2, 3]).unwrap();
    assert!(security.validate_message(&message).is_ok());

    let mut old_message = message.clone();
    old_message.timestamp = SystemTime::now().duration_since(UNIX_EPOCH).unwrap().as_secs() - 10;
    assert!(security.validate_message(&old_message).is_err());
}

fn message_at(source: &str, target: &str, timestamp: u64) -> IpcMessage {
    IpcMessage::from_parts("id".to_string(), source, target, vec![1], timestamp)
}

#[test]
fn validation_errors_by_time() {
    let mut security = IpcSecurity::new().with_authentication(true).with_max_message_age(30);
    match security.validate_message_at(&message_at("", "t", 100), 100) {
        Err(IpcError::SecurityError(m)) => assert_eq!(m, "Message source cannot be empty"),
        _ => panic!("expected a security error"),
    }
    match security.validate_message_at(&message_at("s", "", 100), 100) {
        Err(IpcError::SecurityError(m)) => assert_eq!(m, "Message target cannot be empty"),
        _ => panic!("expected a security error"),
    }
    assert!(security.validate_message_at(&message_at("s", "t", 100), 130).is_ok());
    assert!(matches!(security.validate_message_at(&message_at("s", "t", 100), 131), Err(IpcError::MessageExpired)));
    let expiring = message_at("s", "t", 100).with_ttl(5);
    assert!(matches!(security.validate_message_at(&expiring, 106), Err(IpcError::MessageExpired)));
    security.add_allowed_source("only");
    match security.validate_message_at(&message_at("s", "t", 100), 100) {
        Err(IpcError::CapabilityError(m)) => assert_eq!(m, "Source 's' is not in allowed sources"),
        _ => panic!("expected a capability error"),
    }
    assert!(security.validate_message_at(&message_at("only", "t", 100), 100).is_ok());
    security.remove_allowed_source("only");
    assert!(security.validate_message_at(&message_at("s", "t", 100), 100).is_ok());
}

#[test]
fn no_authentication_accepts_everything() {
    let security = IpcSecurity::new();
    assert!(security.validate_message_at(&message_at("", "", 0), u64::MAX).is_ok());
    assert!(security.detect_connection_hijacking_at(&message_at("", "", 0), u64::MAX).is_ok());
    assert!(security.detect_connection_hijacking(&message_at("", "", u64::MAX)).is_ok());
}

#[test]
fn hijacking_errors_by_time() {
    let mut security = IpcSecurity::new().with_authentication(true).with_max_message_age(30);
    let token = security.register_session_token(&[0xabu8; 32]);
    assert_eq!(token, "ab".repeat(32));
    let message = message_at("s", "t", 100).with_session_token(&token);
    assert!(security.detect_connection_hijacking_at(&message, 130).is_ok());
    match security.detect_connection_hijacking_at(&message, 131) {
        Err(IpcError::ConnectionHijacked(m)) => {
            assert_eq!(m, "Message timestamp is too old (31s > 30s), possible connection hijacking")
        }
        _ => panic!("expected hijacking"),
    }
    match security.detect_connection_hijacking_at(&message_at("s", "t", 100), 100) {
        Err(IpcError::ConnectionHijacked(m)) => assert_eq!(m, "Missing session token"),
        _ => panic!("expected hijacking"),
    }
    security.revoke_session_token(&token);
    match security.detect_connection_hijacking_at(&message, 100) {
        Err(IpcError::ConnectionHijacked(m)) => assert_eq!(m, "Invalid session token"),
        _ => panic!("expected hijacking"),
    }
}

#[test]
fn future_timestamp_counts_as_new() {
    let mut security = IpcSecurity::new().with_authentication(true).with_max_message_age(1);
    let token = security.register_session_token(&[1u8; 32]);
    let message = message_at("s", "t", 110).with_session_token(&token);
    assert!(security.validate_message_at(&message, 100).is_ok());
    assert!(security.detect_connection_hijacking_at(&message, 100).is_ok());
    let far_future = message_at("s", "t", u64::MAX).with_session_token(&token);
    assert!(security.validate_message(&far_future).is_ok());
    assert!(security.detect_connection_hijacking(&far_future).is_ok());
    let untokened = message_at("s", "t", 110);
    match security.detect_connection_hijacking_at(&untokened, 100) {
        Err(IpcError::ConnectionHijacked(m)) => assert_eq!(m, "Missing session token"),
        _ => panic!("expected hijacking"),
    }
}

#[test]
fn decryption_refuses_altered_ciphertext() {
    let key = [9u8; 32];
    let security = IpcSecurity::new().with_encryption(true).with_key(&key).unwrap();
    let mut message = message_at("s", "t", 1);
    security.encrypt_message_with_nonce(&mut message, &[3u8; 12]).unwrap();
    let (n, mut c) = decode_encrypted_payload(&message.payload).unwrap();
    c[0] ^= 1;
    let mut altered = message_at("s", "t", 1);
    altered.payload = encode_encrypted_payload(&n, &c);
    match security.decrypt_message(&mut altered) {
        Err(IpcError::SecurityError(m)) => assert_eq!(m, "Decryption failed: ring::error::Unspecified"),
        _ => panic!("expected a decryption failure"),
    }
}

#[test]
fn session_tokens_are_64_hex_digits_and_distinct() {
    let mut security = IpcSecurity::new();
    let a = security.generate_session_token().unwrap();
    let b = security.generate_session_token().unwrap();
    assert_eq!(a.len(), 64);
    assert!(a.chars().all(|c| c.is_ascii_hexdigit() && !c.is_ascii_uppercase()));
    assert_ne!(a, b);
    assert!(security.validate_session_token(&a) && security.validate_session_token(&b));
}

#[test]
fn signature_is_hmac_sha256_of_bincode_fields() {
    let key = [7u8; 32];
    let security = IpcSecurity::new().with_key(&key).unwrap();
    let message = IpcMessage::from_parts("id-9".to_string(), "src", "dst", vec![1, 2, 3], 42);
    let data = signature_bytes("id-9", "src", "dst", &[1, 2, 3], 42);
    let expected_data = bincode::serialize(&("id-9".to_string(), "src".to_string(), "dst".to_string(), vec![1u8, 2, 3], 42u64)).unwrap();
    assert_eq!(data, expected_data);
    let mut mac = <Hmac<Sha256> as Mac>::new_from_slice(&key).unwrap();
    mac.update(&expected_data);
    let expected = mac.finalize().into_bytes().to_vec();
    assert_eq!(security.sign_message(&message).unwrap(), expected);
    assert_eq!(expected.len(), 32);
    let mut wrong = expected.clone();
    wrong[31] ^= 1;
    assert!(!security.verify_signature(&message, &wrong).unwrap());
    assert!(!security.verify_signature(&message, &expected[..31]).unwrap());
    assert!(security.verify_signature(&message, &expected).unwrap());
}

#[test]
fn signature_errors_without_key() {
    let security = IpcSecurity::new();
    let message = message_at("s", "t", 1);
    match security.sign_message(&message) {
        Err(IpcError::SecurityError(m)) => assert_eq!(m, "Signature key not set for signing"),
        _ => panic!("expected a security error"),
    }
    match security.verify_signature(&message, &[0u8; 32]) {
        Err(IpcError::SecurityError(m)) => assert_eq!(m, "Signature key not set for verification"),
        _ => panic!("expected a security error"),
    }
}

#[test]
fn encryption_with_fixed_nonce_has_the_json_form() {
    let key = [1u8; 32];
    let security = IpcSecurity::new().with_encryption(true).with_key(&key).unwrap();
    let mut message = message_at("s", "t", 1);
    let nonce = [2u8; 12];
    security.encrypt_message_with_nonce(&mut message, &nonce).unwrap();
    assert!(message.payload.len() > 1 + 16);
    let text = String::from_utf8(message.payload.clone()).unwrap();
    assert!(text.starts_with("{\"nonce\":[2,2,2,2,2,2,2,2,2,2,2,2],\"ciphertext\":["));
    let (n, c) = decode_encrypted_payload(&message.payload).unwrap();
    assert_eq!(n, nonce.to_vec());
    assert_eq!(c.len(), 1 + 16);
    security.decrypt_message(&mut message).unwrap();
    assert_eq!(message.payload, vec![1]);
}

#[test]
fn encryption_errors() {
    let no_key = IpcSecurity::new().with_encryption(true);
    let mut message = message_at("s", "t", 1);
    match no_key.encrypt_message(&mut message) {
        Err(IpcError::SecurityError(m)) => assert_eq!(m, "Encryption key not set"),
        _ => panic!("expected a security error"),
    }
    match no_key.decrypt_message(&mut message) {
        Err(IpcError::SecurityError(m)) => assert_eq!(m, "Encryption key not set"),
        _ => panic!("expected a security error"),
    }
    let security = IpcSecurity::new().with_encryption(true).with_key(&[3u8; 32]).unwrap();
    let mut garbage = message_at("s", "t", 1);
    match security.decrypt_message(&mut garbage) {
        Err(IpcError::SecurityError(m)) => assert!(m.starts_with("Failed to deserialize encrypted data")),
        _ => panic!("expected a security error"),
    }
    assert_eq!(garbage.payload, vec![1]);
    let mut short_nonce = message_at("s", "t", 1);
    short_nonce.payload = encode_encrypted_payload(&[1, 2, 3], &[0u8; 20]);
    match security.decrypt_message(&mut short_nonce) {
        Err(IpcError::SecurityError(m)) => assert_eq!(m, "Invalid nonce length"),
        _ => panic!("expected a security error"),
    }
    let mut forged = message_at("s", "t", 1);
    forged.payload = encode_encrypted_payload(&[0u8; 12], &[0u8; 20]);
    match security.decrypt_message(&mut forged) {
        Err(IpcError::SecurityError(m)) => assert_eq!(m, "Decryption failed: ring::error::Unspecified"),
        _ => panic!("expected a security error"),
    }
    let off = IpcSecurity::new().with_key(&[3u8; 32]).unwrap();
    let mut plain = message_at("s", "t", 1);
    off.encrypt_message(&mut plain).unwrap();
    assert_eq!(plain.payload, vec![1]);
}

#[test]
fn encrypted_payload_json_round_trip() {
    let data = encode_encrypted_payload(&[0, 255], &[10]);
    assert_eq!(String::from_utf8(data.clone()).unwrap(), "{\"nonce\":[0,255],\"ciphertext\":[10]}");
    let value: serde_json::Value = serde_json::from_slice(&data).unwrap();
    assert_eq!(value["nonce"][1], 255);
    assert_eq!(decode_encrypted_payload(&data), Some((vec![0, 255], vec![10])));
    assert_eq!(decode_encrypted_payload(b"{\"nonce\":[256],\"ciphertext\":[]}"), None);
}

#[test]
fn encrypted_payload_json_with_whitespace_and_either_order() {
    assert_eq!(
        decode_encrypted_payload(b" { \"nonce\" : [ 1 , 2 ] ,\n\t\"ciphertext\": [3]\r\n} "),
        Some((vec![1, 2], vec![3]))
    );
    assert_eq!(decode_encrypted_payload(b"{\"ciphertext\":[7,8],\"nonce\":[]}"), Some((vec![], vec![7, 8])));
    assert_eq!(decode_encrypted_payload(b"{\"nonce\":[1 2],\"ciphertext\":[]}"), None);
    assert_eq!(decode_encrypted_payload(b"{\"non ce\":[1],\"ciphertext\":[]}"), None);
    assert_eq!(decode_encrypted_payload(b"{\"nonce\":[1],\"ciphertext\":[],\"x\":[]}"), None);
    let mut pretty = Vec::new();
    let value: serde_json::Value = serde_json::from_slice(&encode_encrypted_payload(&[4, 5], &[6])).unwrap();
    serde_json::to_writer_pretty(&mut pretty, &value).unwrap();
    assert_eq!(decode_encrypted_payload(&pretty), Some((vec![4, 5], vec![6])));
}
