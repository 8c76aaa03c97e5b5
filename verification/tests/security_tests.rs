use base64::Engine;
use vida::security::{decrypt, encrypt, MockSecretStore, PinManager, SecretStore, SecurityError};

#[test]
fn test_mock_store_roundtrip() {
    let mut store = MockSecretStore::new();
    store.store("api-key", "sk-123").unwrap();
    assert_eq!(store.get("api-key").unwrap(), "sk-123");
}

#[test]
fn test_mock_store_not_found() {
    let store = MockSecretStore::new();
    assert!(store.get("nonexistent").is_err());
}

#[test]
fn test_mock_store_delete() {
    let mut store = MockSecretStore::new();
    store.store("key", "value").unwrap();
    store.delete("key").unwrap();
    assert!(store.get("key").is_err());
}

#[test]
fn test_mock_store_list() {
    let mut store = MockSecretStore::new();
    store.store("a", "1").unwrap();
    store.store("b", "2").unwrap();
    let list = store.list().unwrap();
    assert_eq!(list.len(), 2);
}

#[test]
fn mock_store_overwrites_and_keeps_others() {
    let mut store = MockSecretStore::default();
    store.store("a", "1").unwrap();
    store.store("b", "2").unwrap();
    store.store("a", "3").unwrap();
    assert_eq!(store.get("a").unwrap(), "3");
    assert_eq!(store.get("b").unwrap(), "2");
    assert_eq!(store.list().unwrap().len(), 2);
    match store.get("zzz").unwrap_err() {
        SecurityError::SecretNotFound(k) => assert_eq!(k, "zzz"),
        other => panic!("unexpected {:?}", other),
    }
}

#[test]
fn test_encrypt_decrypt_roundtrip() {
    let key = [42u8; 32];
    let plaintext = b"Hello, Vida AI!";
    let encrypted = encrypt(&key, plaintext).unwrap();
    let decrypted = decrypt(&key, &encrypted).unwrap();
    assert_eq!(decrypted, plaintext);
}

#[test]
fn test_decrypt_wrong_key_fails() {
    let key1 = [42u8; 32];
    let key2 = [99u8; 32];
    let encrypted = encrypt(&key1, b"secret").unwrap();
    assert!(decrypt(&key2, &encrypted).is_err());
}

#[test]
fn test_decrypt_short_data_fails() {
    let key = [42u8; 32];
    let short = base64::engine::general_purpose::STANDARD.encode([0u8; 5]);
    match decrypt(&key, &short).unwrap_err() {
        SecurityError::EncryptionFailed(m) => assert_eq!(m, "Data too short"),
        other => panic!("unexpected {:?}", other),
    }
}

#[test]
fn decrypt_rejects_invalid_base64() {
    assert!(decrypt(&[1u8; 32], "not base64!").is_err());
}

#[test]
fn encrypted_text_has_nonce_and_tag() {
    let encrypted = encrypt(&[7u8; 32], b"").unwrap();
    // 12 bytes of nonce and 16 of tag give 28 bytes, 40 base64 characters.
    assert_eq!(encrypted.len(), 40);
    assert_ne!(encrypted, encrypt(&[7u8; 32], b"").unwrap());
}

#[test]
fn test_hash_and_verify_correct() {
    let hash = PinManager::hash_password("mySecurePin123").unwrap();
    assert!(PinManager::verify_password("mySecurePin123", &hash).unwrap());
}

#[test]
fn test_verify_wrong_password() {
    let hash = PinManager::hash_password("correct").unwrap();
    assert!(!PinManager::verify_password("wrong", &hash).unwrap());
}

#[test]
fn test_hash_is_unique_per_call() {
    let h1 = PinManager::hash_password("same").unwrap();
    let h2 = PinManager::hash_password("same").unwrap();
    assert_ne!(h1, h2);
}

#[test]
fn test_empty_password() {
    let hash = PinManager::hash_password("").unwrap();
    assert!(PinManager::verify_password("", &hash).unwrap());
    assert!(!PinManager::verify_password("x", &hash).unwrap());
}

#[test]
fn verify_against_garbage_hash_fails() {
    assert!(matches!(
        PinManager::verify_password("x", "not a phc string"),
        Err(SecurityError::HashingFailed(_))
    ));
}

#[test]
fn security_error_messages() {
    assert_eq!(SecurityError::InvalidPin.message(), "Invalid PIN");
    assert_eq!(SecurityError::SecretNotFound("k".to_string()).message(), "Secret not found: k");
}

#[test]
fn password_hashes_use_the_stated_parameters() {
    let hash = PinManager::hash_password("parameters").unwrap();
    assert!(hash.starts_with("$argon2id$v=19$m=65536,t=3,p=4$"), "{}", hash);
    assert_eq!(
        (vida::security::ARGON2_MEMORY_KIB, vida::security::ARGON2_PASSES, vida::security::ARGON2_LANES),
        (65536, 3, 4)
    );
}

#[test]
fn keychain_entries_are_named_by_service_and_key() {
    let manager = vida::security::KeychainManager::new("vida-ai");
    let (service, user) = manager.entry_target("openai_api_key");
    assert_eq!(service, "vida-ai");
    assert_eq!(user, "openai_api_key");
}

#[test]
fn encryption_succeeds_on_ordinary_data() {
    let key = [7u8; 32];
    assert!(encrypt(&key, b"").is_ok());
    let big = vec![1u8; 100_000];
    let text = encrypt(&key, &big).unwrap();
    assert_eq!(decrypt(&key, &text).unwrap(), big);
}
