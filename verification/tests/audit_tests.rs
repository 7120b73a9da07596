use pqkms::audit::{AuditEventType, AuditLog};

#[test]
fn test_audit_logging() {
    let mut audit_log = AuditLog::new();
    let key_id = "test-key";
    let user = "test-user";

    // Test event recording
    assert!(audit_log
        .record(
            AuditEventType::KeyCreation,
            key_id.to_string(),
            user.to_string(),
            true,
            None
        )
        .is_ok());

    // Test key history retrieval
    let history = audit_log.get_key_history(key_id);
    assert_eq!(history.len(), 1);
    assert!(history[0].success);

    // Test failed attempts
    assert!(audit_log
        .record(
            AuditEventType::KeyAccess,
            key_id.to_string(),
            user.to_string(),
            false,
            Some("Access denied".to_string())
        )
        .is_ok());

    let failed = audit_log.get_failed_attempts();
    assert_eq!(failed.len(), 1);
    assert!(!failed[0].success);
}

#[test]
fn test_failed_attempts_exactly_the_failures() {
    // One success and one failure for the same key: the failure view holds
    // exactly the failed event, the key history holds both in order.
    let mut log = AuditLog::new();
    log.record(
        AuditEventType::KeyRotation,
        "k1".to_string(),
        "bob".to_string(),
        true,
        None,
    )
    .unwrap();
    log.record(
        AuditEventType::KeyAccess,
        "k1".to_string(),
        "mallory".to_string(),
        false,
        Some("denied".to_string()),
    )
    .unwrap();

    let failed = log.get_failed_attempts();
    assert_eq!(failed.len(), 1);
    assert_eq!(failed[0].event_type, AuditEventType::KeyAccess);
    assert_eq!(failed[0].user, "mallory");
    assert_eq!(failed[0].details, Some("denied".to_string()));
    assert!(!failed[0].success);

    let history = log.get_key_history("k1");
    assert_eq!(history.len(), 2);
    assert_eq!(history[0].event_type, AuditEventType::KeyRotation);
    assert!(history[0].success);
    assert_eq!(history[1].event_type, AuditEventType::KeyAccess);

    // A key never recorded has an empty history.
    assert!(log.get_key_history("other").is_empty());
}

#[test]
fn test_record_at_uses_given_timestamp() {
    let mut log = AuditLog::new();
    log.record_at(
        AuditEventType::KeyDeletion,
        "k9".to_string(),
        "carol".to_string(),
        true,
        None,
        777,
    )
    .unwrap();
    let history = log.get_key_history("k9");
    assert_eq!(history.len(), 1);
    assert_eq!(history[0].timestamp, 777);
    assert_eq!(history[0].key_id, "k9");
}
