use pqkms::audit::AuditEventType;
use pqkms::config::MIN_ENTROPY_MILLIBITS;
use pqkms::errors::KmsError;
use pqkms::rotate::KeyRotator;
use pqkms::store::{KeyStore, KeyType};

#[test]
fn rotate_test_key_rotation() {
    let store = KeyStore::new();
    let mut rotator = KeyRotator::new(store);
    let key_id = "test-rotation";
    let user = "olafcio42".to_string();

    // Initial key creation
    rotator
        .store
        .store_key(
            key_id.to_string(),
            vec![0u8; 32],
            KeyType::Primary,
            8000,
            user.clone(),
        )
        .unwrap();

    // Force rotation
    let result = rotator.rotate_key(key_id, user.clone(), true);
    assert!(result.is_ok());

    let rotation = result.unwrap();
    assert_eq!(rotation.key_id, key_id);
    assert!(rotation.success);
    assert!(rotation.entropy_score >= MIN_ENTROPY_MILLIBITS);
    assert_eq!(rotation.rotated_by, user);
    assert_eq!(rotation.new_version, 2);
}

#[test]
fn test_version_management() {
    let store = KeyStore::new();
    let mut rotator = KeyRotator::new(store);
    let key_id = "test-versioning";
    let user = "olafcio42".to_string();

    // Initial key
    rotator
        .store
        .store_key(
            key_id.to_string(),
            vec![1u8; 32],
            KeyType::Primary,
            8000,
            user.clone(),
        )
        .unwrap();

    // Multiple rotations
    for i in 0..3u32 {
        let result = rotator.rotate_key(key_id, user.clone(), true).unwrap();
        assert_eq!(result.new_version, i + 2);

        // Verify old version is still accessible
        let old_key = rotator.store.get_key_version(key_id, i + 1);
        assert!(old_key.is_some());
    }
}

#[test]
fn test_rotate_unknown_key_not_found() {
    let store = KeyStore::new();
    let mut rotator = KeyRotator::new(store);
    let result = rotator.rotate_key("k2", "carol".to_string(), false);
    assert!(matches!(result, Err(KmsError::NotFound)));
}

#[test]
fn test_rotation_gate() {
    let store = KeyStore::new();
    let mut rotator = KeyRotator::new(store);
    let user = "alice".to_string();
    rotator
        .store
        .store_key(
            "k1".to_string(),
            vec![0u8; 32],
            KeyType::Primary,
            8000,
            user.clone(),
        )
        .unwrap();

    // Never rotated: an unforced rotation is allowed.
    let first = rotator.rotate_key("k1", user.clone(), false);
    assert!(first.is_ok());
    let t1 = rotator.check_rotation_status("k1").expect("rotation recorded");
    assert!(t1 >= 0);

    // Immediately after, the 30-day gate refuses an unforced rotation and
    // reports the full interval remaining.
    let second = rotator.rotate_key("k1", user.clone(), false);
    assert!(matches!(second, Err(KmsError::RotationNotDue(30))));

    // A forced rotation is allowed regardless of the interval.
    let forced = rotator.rotate_key("k1", user.clone(), true);
    assert!(forced.is_ok());
    assert_eq!(forced.unwrap().new_version, 3);
}

#[test]
fn test_rotation_audit_trail() {
    let store = KeyStore::new();
    let mut rotator = KeyRotator::new(store);
    let user = "bob".to_string();
    rotator
        .store
        .store_key(
            "k1".to_string(),
            vec![0u8; 32],
            KeyType::Primary,
            8000,
            user.clone(),
        )
        .unwrap();

    // A successful rotation yields exactly one successful KeyRotation event.
    rotator.rotate_key("k1", user.clone(), true).unwrap();
    let history = rotator.audit.get_key_history("k1");
    assert_eq!(history.len(), 1);
    assert_eq!(history[0].event_type, AuditEventType::KeyRotation);
    assert!(history[0].success);
    assert_eq!(history[0].user, "bob");

    // A failed attempt is retrievable among the failed attempts.
    let r = rotator.rotate_key("missing", "carol".to_string(), true);
    assert!(matches!(r, Err(KmsError::NotFound)));
    let failed = rotator.audit.get_failed_attempts();
    assert_eq!(failed.len(), 1);
    assert_eq!(failed[0].key_id, "missing");
    assert!(!failed[0].success);
    assert_eq!(rotator.audit.get_key_history("k1").len(), 1);
}
