use algotrade_core::vault::{SecureVault, VaultError};

#[test]
fn test_store_and_retrieve() {
    let key = SecureVault::generate_key();
    let mut vault = SecureVault::new(key);

    vault.store("binance_api_key", "my_secret_api_key").unwrap();
    let retrieved = vault.retrieve("binance_api_key").unwrap();

    assert_eq!(retrieved, "my_secret_api_key");
}

#[test]
fn test_not_found() {
    let key = SecureVault::generate_key();
    let vault = SecureVault::new(key);

    let result = vault.retrieve("nonexistent");
    assert!(matches!(result, Err(VaultError::NotFound(_))));
}

#[test]
fn test_remove() {
    let key = SecureVault::generate_key();
    let mut vault = SecureVault::new(key);

    vault.store("test_key", "test_value").unwrap();
    assert!(vault.remove("test_key"));
    assert!(!vault.remove("test_key"));
}

#[test]
fn store_overwrites_and_lists_once() {
    let key = SecureVault::generate_key();
    let mut vault = SecureVault::new(key);

    vault.store("exchange", "first").unwrap();
    vault.store("exchange", "second").unwrap();
    assert_eq!(vault.retrieve("exchange").unwrap(), "second");

    let ids = vault.list_ids();
    assert_eq!(ids, vec!["exchange".to_string()]);
}

#[test]
fn clear_empties_the_vault() {
    let key = SecureVault::generate_key();
    let mut vault = SecureVault::new(key);
    vault.store("a", "1").unwrap();
    vault.store("b", "2").unwrap();
    vault.clear();
    assert!(vault.list_ids().is_empty());
    assert!(matches!(vault.retrieve("a"), Err(VaultError::NotFound(_))));
}
