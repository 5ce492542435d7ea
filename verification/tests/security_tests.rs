use moda_core::security::{Capability, CapabilityToken, PathValidator, PermissionManager, PermissionPolicy};
use moda_core::security::{PolicyManager, SecurityPolicy, StringValidator, Validator};
use moda_core::security::SecurityError;

#[test]
fn test_token_creation() {
    let token = CapabilityToken::new("test-token")
        .with_capability(Capability::NetworkAccess)
        .with_capability(Capability::FileSystemRead);

    assert_eq!(token.id(), "test-token");
    assert!(token.capabilities().contains(&Capability::NetworkAccess));
    assert!(token.capabilities().contains(&Capability::FileSystemRead));
}

#[test]
fn test_token_verification() {
    let token = CapabilityToken::new("test-token").with_capability(Capability::NetworkAccess);

    let required = vec![Capability::NetworkAccess];
    assert!(token.verify(&required));

    let required = vec![Capability::NetworkAccess, Capability::FileSystemWrite];
    assert!(!token.verify(&required));
}

#[test]
fn test_permission_check() {
    let mut manager = PermissionManager::new();

    let policy = PermissionPolicy {
        allowed_capabilities: vec![Capability::NetworkAccess],
        denied_capabilities: vec![Capability::FileSystemWrite],
    };

    manager.add_policy("test-resource", policy);

    assert!(manager.check_permission("test-resource", &Capability::NetworkAccess).unwrap());
    assert!(!manager.check_permission("test-resource", &Capability::FileSystemWrite).unwrap());
}

#[test]
fn test_security_policy() {
    let policy = SecurityPolicy::new("test-policy", "Test policy")
        .with_allowed_capabilities(vec![Capability::NetworkAccess])
        .with_denied_capabilities(vec![Capability::FileSystemWrite])
        .with_default_deny(true);

    assert!(policy.allows_capability(&Capability::NetworkAccess));
    assert!(!policy.allows_capability(&Capability::FileSystemWrite));
    assert!(!policy.allows_capability(&Capability::FileSystemRead));
}

#[test]
fn test_policy_manager() {
    let mut manager = PolicyManager::new();

    let policy = SecurityPolicy::new("test-resource", "Test resource policy")
        .with_allowed_capabilities(vec![Capability::NetworkAccess])
        .with_denied_capabilities(vec![Capability::FileSystemWrite]);

    assert!(manager.add_policy(policy).is_ok());

    assert!(manager.check_resource_capability("test-resource", &Capability::NetworkAccess).unwrap());
    assert!(!manager.check_resource_capability("test-resource", &Capability::FileSystemWrite).unwrap());

    assert!(manager.check_resource_capability("test-resource", &Capability::FileSystemRead).is_err());
}

#[test]
fn test_string_validation() {
    let validator = StringValidator::new(10);

    assert!(validator.validate(&"short".to_string()).is_ok());
    assert!(validator.validate(&"this is too long".to_string()).is_err());
}

#[test]
fn test_path_validation() {
    let validator = PathValidator::new();

    assert!(validator.validate(&"relative/path".to_string()).is_ok());
    assert!(validator.validate(&"/absolute/path".to_string()).is_err());
    assert!(validator.validate(&"../parent".to_string()).is_err());
}

#[test]
fn token_expiry_and_verification_by_time() {
    let token = CapabilityToken::new("t")
        .with_capabilities(vec![Capability::ProcessSpawn, Capability::NetworkAccess])
        .with_expiry(100);
    assert!(!token.is_expired_at(100));
    assert!(token.is_expired_at(101));
    assert!(token.verify_at(&vec![Capability::ProcessSpawn], 100));
    assert!(!token.verify_at(&vec![Capability::ProcessSpawn], 101));
    assert!(token.verify_at(&vec![], 50));
    assert!(token.is_expired());
    let forever = CapabilityToken::new("f").with_capability(Capability::ProcessSpawn);
    assert!(!forever.is_expired_at(u64::MAX));
    assert!(forever.verify(&vec![Capability::ProcessSpawn, Capability::ProcessSpawn]));
}

#[test]
fn custom_capabilities_compare_by_name() {
    let token = CapabilityToken::new("c").with_capability(Capability::Custom("camera".to_string()));
    assert!(token.verify(&vec![Capability::Custom("camera".to_string())]));
    assert!(!token.verify(&vec![Capability::Custom("mic".to_string())]));
    assert_eq!(Capability::Custom("camera".to_string()).debug_text(), "Custom(\"camera\")");
    assert_eq!(Capability::FileSystemRead.debug_text(), "FileSystemRead");
}

#[test]
fn permission_denial_wins_and_unknown_resources() {
    let mut manager = PermissionManager::new();
    manager.add_policy(
        "r",
        PermissionPolicy {
            allowed_capabilities: vec![Capability::ProcessSpawn],
            denied_capabilities: vec![Capability::ProcessSpawn],
        },
    );
    assert!(!manager.check_permission("r", &Capability::ProcessSpawn).unwrap());
    match manager.check_permission("r", &Capability::NetworkAccess) {
        Err(SecurityError::PermissionDenied(m)) => {
            assert_eq!(m, "No policy defined for resource r with capability NetworkAccess")
        }
        _ => panic!("expected a denial"),
    }
    match manager.check_permission("other", &Capability::Custom("x".to_string())) {
        Err(SecurityError::PermissionDenied(m)) => {
            assert_eq!(m, "No policy defined for resource other with capability Custom(\"x\")")
        }
        _ => panic!("expected a denial"),
    }
    manager.remove_policy("r");
    assert!(manager.check_permission("r", &Capability::ProcessSpawn).is_err());
}

#[test]
fn policy_manager_errors_and_replacement() {
    let mut manager = PolicyManager::new();
    assert!(manager.add_policy(SecurityPolicy::new("p", "d")).is_ok());
    assert!(manager.add_policy(SecurityPolicy::new("p", "again")).is_ok());
    assert_eq!(manager.get_policy("p").unwrap().description, "again");
    match manager.get_policy("q") {
        Err(SecurityError::PermissionDenied(m)) => assert_eq!(m, "Policy q not found"),
        _ => panic!("expected a denial"),
    }
    match manager.check_resource_capability("q", &Capability::ProcessSpawn) {
        Err(SecurityError::PermissionDenied(m)) => assert_eq!(m, "No policy defined for resource q"),
        _ => panic!("expected a denial"),
    }
    match manager.check_resource_capability("p", &Capability::SystemCall("kill".to_string())) {
        Err(SecurityError::PermissionDenied(m)) => {
            assert_eq!(m, "Capability SystemCall(\"kill\") is not explicitly allowed for resource p")
        }
        _ => panic!("expected a denial"),
    }
    assert_eq!(manager.list_policies().unwrap(), vec!["p".to_string()]);
    assert!(manager.remove_policy("p").is_ok());
    match manager.remove_policy("p") {
        Err(SecurityError::PermissionDenied(m)) => assert_eq!(m, "Policy p not found"),
        _ => panic!("expected a denial"),
    }
    assert!(manager.list_policies().unwrap().is_empty());
}

#[test]
fn policy_default_allow() {
    let mut manager = PolicyManager::new();
    let policy = SecurityPolicy::new("open", "everything not denied").with_default_deny(false);
    assert!(policy.allows_capability(&Capability::SystemCall("uname".to_string())));
    manager.add_policy(policy).unwrap();
    assert!(manager.check_resource_capability("open", &Capability::SystemCall("uname".to_string())).unwrap());
}

#[test]
fn string_validator_messages() {
    let validator = StringValidator::new(10).with_allowed_chars("abc");
    match validator.validate(&"abcd".to_string()) {
        Err(SecurityError::ValidationFailed(m)) => assert_eq!(m, "Invalid character 'd' in input"),
        _ => panic!("expected a validation failure"),
    }
    assert!(validator.validate(&"cab".to_string()).is_ok());
    assert!(validator.validate(&String::new()).is_ok());
    match StringValidator::new(3).validate(&"héé".to_string()) {
        Err(SecurityError::ValidationFailed(m)) => assert_eq!(m, "Input exceeds maximum length of 3"),
        _ => panic!("expected a validation failure"),
    }
}

#[test]
fn path_validator_permissions() {
    let validator = PathValidator::new().allow_absolute(true);
    assert!(validator.validate(&"/etc/x".to_string()).is_ok());
    match validator.validate(&"/a/../b".to_string()) {
        Err(SecurityError::ValidationFailed(m)) => assert_eq!(m, "Parent directory references are not allowed"),
        _ => panic!("expected a validation failure"),
    }
    assert!(PathValidator::new().allow_absolute(true).allow_parent(true).validate(&"/a/../b".to_string()).is_ok());
    match PathValidator::default().validate(&"/a/../b".to_string()) {
        Err(SecurityError::ValidationFailed(m)) => assert_eq!(m, "Absolute paths are not allowed"),
        _ => panic!("expected a validation failure"),
    }
}
