use cap_guard::{CustomError, Key, PolicyStore, TransferOrder};

fn key(b: u8) -> Key {
    Key::new([b; 32])
}

#[test]
fn store_creates_once_per_asset() {
    let mut store = PolicyStore::new();
    assert_eq!(store.get(&key(9)), None);
    assert_eq!(store.create_policy(key(9), key(1), 10), Ok(()));
    assert_eq!(store.create_policy(key(9), key(2), 50), Err(CustomError::AlreadyInitialized));
    let cfg = store.get(&key(9)).unwrap();
    assert_eq!(cfg.authority, key(1));
    assert_eq!(cfg.max_percent, 10);
    assert!(!cfg.graduated);
    assert_eq!(store.create_policy(key(8), key(2), 50), Ok(()));
    assert_eq!(store.get(&key(8)).unwrap().authority, key(2));
    assert_eq!(store.get(&key(9)).unwrap().authority, key(1));
}

#[test]
fn store_guards_by_asset() {
    let mut store = PolicyStore::new();
    store.create_policy(key(9), key(1), 10).unwrap();
    assert_eq!(
        store.guarded_transfer(&key(9), 1_000_000, 6, 0, 100_000),
        Ok(TransferOrder { amount: 100_000, decimals: 6 })
    );
    assert_eq!(
        store.guarded_transfer(&key(9), 1_000_000, 6, 0, 100_001),
        Err(CustomError::OverCap)
    );
    assert_eq!(
        store.guarded_transfer(&key(7), 1_000_000, 6, 0, 1),
        Err(CustomError::NotInitialized)
    );
}

#[test]
fn store_graduation_lifts_cap() {
    let mut store = PolicyStore::new();
    store.create_policy(key(9), key(1), 10).unwrap();
    assert_eq!(store.set_graduated(&key(9), &key(2), true), Err(CustomError::Unauthorized));
    assert!(!store.get(&key(9)).unwrap().graduated);
    assert_eq!(store.set_graduated(&key(9), &key(1), true), Ok(()));
    assert_eq!(store.set_graduated(&key(9), &key(1), true), Ok(()));
    let cfg = store.get(&key(9)).unwrap();
    assert!(cfg.graduated);
    assert_eq!(cfg.authority, key(1));
    assert_eq!(
        store.guarded_transfer(&key(9), 1_000_000, 6, 0, 5_000_000),
        Ok(TransferOrder { amount: 5_000_000, decimals: 6 })
    );
    assert_eq!(store.set_graduated(&key(7), &key(1), true), Err(CustomError::NotInitialized));
}
