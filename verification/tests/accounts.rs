use ledger_control::account::{AccountRecord, AccountStore};
use ledger_control::keys::{Digest, Pubkey};

fn key(byte: u8) -> Pubkey {
    Pubkey::new_from_array([byte; 32])
}

#[test]
fn keys_compare_byte_for_byte() {
    let mut bytes = [5u8; 32];
    let a = Pubkey::new_from_array(bytes);
    assert!(a.same(&key(5)));
    assert_eq!(a, key(5));
    bytes[31] = 6;
    let b = Pubkey::new_from_array(bytes);
    assert!(!a.same(&b));
    assert_ne!(a, b);
    assert_eq!(b.to_bytes(), bytes);
}

#[test]
fn digests_compare_byte_for_byte() {
    let mut bytes = [0u8; 32];
    let a = Digest::new_from_array(bytes);
    bytes[0] = 1;
    let b = Digest::new_from_array(bytes);
    assert!(a.same(&Digest::new_from_array([0u8; 32])));
    assert!(!a.same(&b));
    assert_ne!(a, b);
}

#[test]
fn unique_keys_differ() {
    let a = Pubkey::new_unique();
    let b = Pubkey::new_unique();
    let c = Pubkey::new_unique();
    assert_ne!(a, b);
    assert_ne!(b, c);
    assert_ne!(a, c);
}

#[test]
fn unique_digests_differ() {
    let a = Digest::new_unique();
    let b = Digest::new_unique();
    assert_ne!(a, b);
}

#[test]
fn new_account_is_zeroed() {
    let account = AccountRecord::new(12, 4, &key(1));
    assert_eq!(
        account,
        AccountRecord {
            lamports: 12,
            data: vec![0u8; 4],
            owner: key(1),
            executable: false,
            rent_epoch: 0,
        }
    );
    assert_eq!(AccountRecord::new(0, 0, &key(2)).data.len(), 0);
}

#[test]
fn set_data_keeps_the_other_fields() {
    let mut account = AccountRecord {
        lamports: 3,
        data: vec![1, 2],
        owner: key(4),
        executable: true,
        rent_epoch: 9,
    };
    account.set_data(vec![7, 8, 9]);
    assert_eq!(
        account,
        AccountRecord {
            lamports: 3,
            data: vec![7, 8, 9],
            owner: key(4),
            executable: true,
            rent_epoch: 9,
        }
    );
}

#[test]
fn duplicate_is_equal_and_independent() {
    let account = AccountRecord {
        lamports: 3,
        data: vec![1, 2, 3],
        owner: key(4),
        executable: true,
        rent_epoch: 9,
    };
    let mut copy = account.duplicate();
    assert_eq!(copy, account);
    copy.data[0] = 50;
    assert_eq!(account.data, vec![1, 2, 3]);
}

#[test]
fn store_starts_empty() {
    let store = AccountStore::new();
    assert!(store.get(&key(0)).is_none());
    assert!(store.get(&key(1)).is_none());
}

#[test]
fn store_put_then_get() {
    let mut store = AccountStore::new();
    store.put(&key(1), AccountRecord::new(10, 1, &key(9)));
    store.put(&key(2), AccountRecord::new(20, 2, &key(9)));
    assert_eq!(store.get(&key(1)), Some(&AccountRecord::new(10, 1, &key(9))));
    assert_eq!(store.get(&key(2)), Some(&AccountRecord::new(20, 2, &key(9))));
    assert!(store.get(&key(3)).is_none());
}

#[test]
fn store_put_overwrites() {
    let mut store = AccountStore::new();
    store.put(&key(1), AccountRecord::new(10, 1, &key(9)));
    store.put(&key(2), AccountRecord::new(20, 2, &key(9)));
    store.put(&key(1), AccountRecord::new(11, 3, &key(8)));
    assert_eq!(store.get(&key(1)), Some(&AccountRecord::new(11, 3, &key(8))));
    assert_eq!(store.get(&key(2)), Some(&AccountRecord::new(20, 2, &key(9))));
}

#[test]
fn store_duplicate_does_not_share() {
    let mut store = AccountStore::new();
    store.put(&key(1), AccountRecord::new(10, 1, &key(9)));
    let mut copy = store.duplicate();
    copy.put(&key(1), AccountRecord::new(99, 0, &key(9)));
    copy.put(&key(2), AccountRecord::new(5, 0, &key(9)));
    assert_eq!(store.get(&key(1)), Some(&AccountRecord::new(10, 1, &key(9))));
    assert!(store.get(&key(2)).is_none());
    assert_eq!(copy.get(&key(1)), Some(&AccountRecord::new(99, 0, &key(9))));
}
