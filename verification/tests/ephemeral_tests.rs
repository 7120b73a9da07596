use pqkms::config::{EPHEMERAL_TTL_SECONDS, MIN_ENTROPY_MILLIBITS};
use pqkms::ephemeral::EphemeralKeyManager;
use pqkms::errors::KmsError;

/// 1024 bytes cycling through every byte value: a perfectly uniform
/// histogram that scores exactly 8 bits/byte.
fn uniform_material() -> Vec<u8> {
    let mut m = Vec::new();
    for i in 0..1024usize {
        m.push((i % 256) as u8);
    }
    m
}

#[test]
fn test_ephemeral_key_regeneration() {
    let mut manager = EphemeralKeyManager::new();
    let key_id = "test-ephemeral";

    assert!(manager.regenerate_key(key_id).is_ok());

    let key_data = manager.get_key_data(key_id).unwrap();

    assert!(key_data.entropy_score >= MIN_ENTROPY_MILLIBITS);
    assert_eq!(key_data.key_id, key_id);
}

#[test]
fn test_ephemeral_key_rotation() {
    let mut manager = EphemeralKeyManager::new();
    let key_id = "test-rotation";

    assert!(manager.regenerate_key(key_id).is_ok());

    assert!(manager.check_and_rotate_keys().is_ok());
}

#[test]
fn test_fresh_entry_survives_sweep() {
    // An entry regenerated a moment ago (age about 0 s) is untouched by an
    // immediate sweep.
    let mut manager = EphemeralKeyManager::new();
    manager.regenerate_key("e1").unwrap();
    let before = manager.get_key_data("e1").unwrap();

    manager.check_and_rotate_keys().unwrap();

    let after = manager.get_key_data("e1").unwrap();
    assert_eq!(after.timestamp, before.timestamp);
    assert_eq!(after.entropy_score, before.entropy_score);
    assert_eq!(after.key_id, "e1");
}

#[test]
fn test_sweep_regenerates_only_expired() {
    // Drive the clock explicitly: an entry at or past the TTL is
    // regenerated with the sweep's timestamp, a younger one is untouched.
    let mut manager = EphemeralKeyManager::new();
    manager.regenerate_key_with("old", 1000, uniform_material()).unwrap();
    manager
        .regenerate_key_with("young", 1000 + EPHEMERAL_TTL_SECONDS / 2, uniform_material())
        .unwrap();

    let just_before = 1000 + EPHEMERAL_TTL_SECONDS - 1;
    manager.sweep_at(just_before).unwrap();
    assert_eq!(manager.get_key_data("old").unwrap().timestamp, 1000);

    let at_expiry = 1000 + EPHEMERAL_TTL_SECONDS;
    manager.sweep_at(at_expiry).unwrap();
    assert_eq!(manager.get_key_data("old").unwrap().timestamp, at_expiry);
    assert!(manager.get_key_data("old").unwrap().entropy_score >= MIN_ENTROPY_MILLIBITS);
    assert_eq!(
        manager.get_key_data("young").unwrap().timestamp,
        1000 + EPHEMERAL_TTL_SECONDS / 2
    );
}

#[test]
fn test_regeneration_rejects_low_entropy_material() {
    // All-zero material scores 0 millibits/byte and is never admitted; the
    // rejected attempt leaves the manager unchanged.
    let mut manager = EphemeralKeyManager::new();
    let r = manager.regenerate_key_with("e1", 1000, vec![0u8; 1024]);
    assert_eq!(r, Err(KmsError::InsufficientEntropy(0)));
    assert!(manager.get_key_data("e1").is_none());

    // Uniform material is admitted with a full score.
    manager.regenerate_key_with("e1", 1000, uniform_material()).unwrap();
    assert_eq!(manager.get_key_data("e1").unwrap().entropy_score, 8000);
}
