use pqkms::errors::KmsError;
use pqkms::store::{KeyStore, KeyType};

#[test]
fn test_store_and_update_flow() {
    // Create at version 1, update to version 2, and check the snapshot.
    let mut store = KeyStore::new();
    store
        .store_key(
            "k1".to_string(),
            vec![0u8; 32],
            KeyType::Primary,
            8000,
            "alice".to_string(),
        )
        .unwrap();

    let b = vec![7u8; 32];
    store.update_key("k1", b.clone(), 8000, "bob".to_string()).unwrap();

    let keys = store.list_keys();
    let entry = keys.iter().find(|(id, _)| id == "k1").expect("k1 listed");
    assert_eq!(entry.1.version, 2);
    assert_eq!(entry.1.rotated_by, "bob");

    // The original version is still retrievable, byte for byte.
    let v1 = store.get_key_version("k1", 1).expect("version 1 retained");
    assert_eq!(v1, vec![0u8; 32]);
    let v2 = store.get_key_version("k1", 2).expect("version 2 present");
    assert_eq!(v2, b);
    assert!(store.get_key_version("k1", 3).is_none());
    assert_eq!(store.get_key("k1").unwrap(), b);
}

#[test]
fn test_store_rejects_low_entropy_score() {
    let mut store = KeyStore::new();
    let r = store.store_key(
        "k1".to_string(),
        vec![0u8; 32],
        KeyType::Primary,
        7000,
        "alice".to_string(),
    );
    assert_eq!(r, Err(KmsError::InsufficientEntropy(7000)));
    // The rejected attempt left the store unchanged.
    assert!(store.get_key("k1").is_none());
    assert!(store.list_keys().is_empty());
}

#[test]
fn test_update_rejects_low_entropy_score() {
    let mut store = KeyStore::new();
    store
        .store_key(
            "k1".to_string(),
            vec![1u8; 32],
            KeyType::Secondary,
            8000,
            "alice".to_string(),
        )
        .unwrap();
    let r = store.update_key("k1", vec![9u8; 32], 7499, "eve".to_string());
    assert_eq!(r, Err(KmsError::InsufficientEntropy(7499)));
    // State is unchanged by the rejected attempt.
    assert_eq!(store.get_key("k1").unwrap(), vec![1u8; 32]);
    assert!(store.get_key_version("k1", 2).is_none());
}

#[test]
fn test_store_rejects_existing_id() {
    let mut store = KeyStore::new();
    store
        .store_key(
            "k1".to_string(),
            vec![1u8; 32],
            KeyType::Primary,
            8000,
            "alice".to_string(),
        )
        .unwrap();
    let r = store.store_key(
        "k1".to_string(),
        vec![2u8; 32],
        KeyType::Primary,
        8000,
        "bob".to_string(),
    );
    assert_eq!(r, Err(KmsError::KeyExists));
    assert_eq!(store.get_key("k1").unwrap(), vec![1u8; 32]);
}

#[test]
fn test_update_unknown_id_not_found() {
    let mut store = KeyStore::new();
    let r = store.update_key("missing", vec![1u8; 32], 8000, "bob".to_string());
    assert_eq!(r, Err(KmsError::NotFound));
}

#[test]
fn test_error_messages() {
    assert_eq!(KmsError::NotFound.message(), "Key not found");
    assert_eq!(
        KmsError::InsufficientEntropy(7000).message(),
        "Insufficient entropy in generated key"
    );
    assert_eq!(
        KmsError::RotationNotDue(30).message(),
        "Key rotation not yet due"
    );
}

#[test]
fn test_delete_purges_everything() {
    let mut store = KeyStore::new();
    store
        .store_key(
            "k1".to_string(),
            vec![1u8; 32],
            KeyType::Backup,
            8000,
            "alice".to_string(),
        )
        .unwrap();
    store.update_key("k1", vec![2u8; 32], 8000, "bob".to_string()).unwrap();

    assert!(store.delete_key("k1"));
    assert!(store.get_key("k1").is_none());
    assert!(store.get_key_version("k1", 1).is_none());
    assert!(store.get_key_version("k1", 2).is_none());
    assert!(!store.delete_key("k1"));
}

#[test]
fn test_update_key_at_records_timestamp() {
    let mut store = KeyStore::new();
    store
        .store_key(
            "k1".to_string(),
            vec![1u8; 32],
            KeyType::Primary,
            8000,
            "alice".to_string(),
        )
        .unwrap();
    store
        .update_key_at("k1", vec![2u8; 32], 7600, "bob".to_string(), 12345)
        .unwrap();
    let keys = store.list_keys();
    let entry = keys.iter().find(|(id, _)| id == "k1").unwrap();
    assert_eq!(entry.1.last_rotated, Some(12345));
    assert_eq!(entry.1.entropy_score, 7600);
    assert_eq!(entry.1.version, 2);
}
