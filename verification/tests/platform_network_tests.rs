use moda_core::network::{TlsConfig, TlsVersion};
use moda_core::network::NetworkError;
use moda_core::platform::{Platform, PlatformInfo};
use moda_core::sandbox::{NamespaceConfig, Sandbox};
use moda_core::storage::{EncryptedData, SecureStorage, StorageError};
use moda_core::render::NodeType;

#[test]
fn test_tls_config() {
    let config = TlsConfig::new().with_verify_certificates(true).with_min_tls_version(TlsVersion::Tls1_2);

    assert!(config.validate().is_ok());
}

#[test]
fn test_invalid_tls_config() {
    let config = TlsConfig::new().with_min_tls_version(TlsVersion::Tls1_3).with_max_tls_version(TlsVersion::Tls1_2);

    assert!(config.validate().is_err());
}

#[test]
fn test_platform_detection() {
    for os in ["linux", "macos", "windows"] {
        let platform = Platform::from_os_name(os);
        assert_ne!(platform, Platform::Unknown);
    }
}

#[test]
fn test_platform_info() {
    for os in ["linux", "macos", "windows"] {
        let info = PlatformInfo::from_parts(Platform::from_os_name(os), "x86_64");
        assert!(info.is_supported());
    }
}

#[test]
fn test_namespace_config() {
    let config = NamespaceConfig::new().with_pid(true).with_network(true);

    assert!(config.enable_pid);
    assert!(config.enable_network);
    assert!(!config.enable_mount);
}

#[test]
fn test_encryption_decryption() {
    let key = [0u8; 32];
    let storage = SecureStorage::new(&key);

    let plaintext = b"Hello, World!";
    let encrypted = storage.encrypt(plaintext).unwrap();
    let decrypted = storage.decrypt(&encrypted).unwrap();

    assert_eq!(decrypted, plaintext);
}

#[test]
fn tls_defaults_and_error_message() {
    let config = TlsConfig::default();
    assert!(config.verify_certificates);
    assert_eq!(config.min_tls_version, TlsVersion::Tls1_2);
    assert_eq!(config.max_tls_version, TlsVersion::Tls1_3);
    assert!(TlsConfig::new().with_min_tls_version(TlsVersion::Tls1_0).with_max_tls_version(TlsVersion::Tls1_0).validate().is_ok());
    match TlsConfig::new().with_min_tls_version(TlsVersion::Tls1_3).with_max_tls_version(TlsVersion::Tls1_1).validate() {
        Err(NetworkError::TlsError(m)) => assert_eq!(m, "Min TLS version cannot be greater than max TLS version"),
        _ => panic!("expected a TLS error"),
    }
    assert_eq!(TlsVersion::Tls1_0.rank(), 0);
    assert_eq!(TlsVersion::Tls1_3.rank(), 3);
}

#[test]
fn platform_names_round_trip() {
    for p in [Platform::Linux, Platform::MacOS, Platform::Windows] {
        assert_eq!(Platform::from_os_name(p.name()), p);
    }
    assert_eq!(Platform::from_os_name("freebsd"), Platform::Unknown);
    assert_eq!(Platform::Unknown.name(), "unknown");
    assert!(Platform::Linux.supports_sandbox());
    assert!(Platform::MacOS.supports_sandbox());
    assert!(!Platform::Windows.supports_sandbox());
    let info = PlatformInfo::from_parts(Platform::Unknown, "riscv64");
    assert!(!info.is_supported());
    assert_eq!(info.arch(), "riscv64");
    assert_eq!(info.platform(), Platform::Unknown);
}

#[test]
fn sandbox_launch_plans() {
    let plain = Sandbox::new();
    let plan = plain.launch_plan(Platform::Linux);
    assert_eq!(plan.program, "/bin/sh");
    assert!(plan.args.is_empty());
    let pid = Sandbox::new().with_namespace(NamespaceConfig::new().with_pid(true));
    let plan = pid.launch_plan(Platform::Linux);
    assert_eq!(plan.args, vec!["-c".to_string(), "echo 'PID namespace enabled'".to_string()]);
    let plan = pid.launch_plan(Platform::Windows);
    assert_eq!(plan.program, "cmd");
    assert_eq!(plan.args, vec!["/c".to_string(), "echo PID namespace enabled".to_string()]);
    assert!(pid.namespace_config().enable_pid);
    assert!(!Sandbox::default().namespace_config().enable_pid);
}

#[test]
fn namespace_builders() {
    let c = NamespaceConfig::default().with_mount(true).with_uts(true).with_ipc(true).with_user(true);
    assert!(c.enable_mount && c.enable_uts && c.enable_ipc && c.enable_user);
    assert!(!c.enable_pid && !c.enable_network);
}

#[test]
fn storage_with_fixed_nonce_and_errors() {
    let storage = SecureStorage::new(&[5u8; 32]);
    let sealed = storage.encrypt_with_nonce(b"abc", &[9u8; 12]).unwrap();
    assert_eq!(sealed.nonce, vec![9u8; 12]);
    assert_eq!(sealed.ciphertext.len(), 3 + 16);
    assert_ne!(&sealed.ciphertext[..3], b"abc");
    assert_eq!(storage.decrypt(&sealed).unwrap(), b"abc".to_vec());
    let bad_nonce = EncryptedData { nonce: vec![1, 2], ciphertext: sealed.ciphertext.clone() };
    match storage.decrypt(&bad_nonce) {
        Err(StorageError::DecryptionFailed(m)) => assert_eq!(m, "Invalid nonce length"),
        _ => panic!("expected a decryption failure"),
    }
    let other = SecureStorage::new(&[6u8; 32]);
    match other.decrypt(&sealed) {
        Err(StorageError::DecryptionFailed(m)) => assert_eq!(m, "Decryption failed: ring::error::Unspecified"),
        _ => panic!("expected a decryption failure"),
    }
    let a = storage.encrypt(b"x").unwrap();
    let b = storage.encrypt(b"x").unwrap();
    assert_ne!(a.nonce, b.nonce);
}

#[test]
fn node_types_compare() {
    assert_eq!(NodeType::Element, NodeType::Element);
    assert_ne!(NodeType::Text, NodeType::Comment);
}

#[test]
fn storage_refuses_altered_ciphertext() {
    let storage = SecureStorage::new(&[5u8; 32]);
    let mut sealed = storage.encrypt_with_nonce(b"abc", &[1u8; 12]).unwrap();
    sealed.ciphertext[18] ^= 0x80;
    match storage.decrypt(&sealed) {
        Err(StorageError::DecryptionFailed(m)) => assert_eq!(m, "Decryption failed: ring::error::Unspecified"),
        _ => panic!("expected a decryption failure"),
    }
}
