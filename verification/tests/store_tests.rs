use registration::account::NewUser;
use registration::store::{AccountStore, StoreError};

fn row_for(name: &str) -> NewUser {
    NewUser {
        username: name.to_owned(),
        password_hash: "$argon2id$stub".to_owned(),
        latitude: Some(1_000_000),
        longitude: Some(2_000_000),
    }
}

#[test]
fn insert_assigns_sequential_ids() {
    let mut store = AccountStore::new();
    let a = store.insert_account(row_for("alice")).unwrap();
    let b = store.insert_account(row_for("bob")).unwrap();
    assert_eq!(a, 1);
    assert_eq!(b, 2);
    assert_eq!(store.len(), 2);
    assert_eq!(store.row(0).username, "alice");
    assert_eq!(store.row(1).username, "bob");
}

#[test]
fn duplicate_insert_is_rejected_and_changes_nothing() {
    let mut store = AccountStore::new();
    store.insert_account(row_for("alice")).unwrap();
    let second = store.insert_account(row_for("alice"));
    assert_eq!(second, Err(StoreError::DuplicateUsername));
    assert_eq!(store.len(), 1);
    assert_eq!(store.count_username("alice"), 1);
}

#[test]
fn count_sees_only_matching_rows() {
    let mut store = AccountStore::new();
    assert_eq!(store.count_username("alice"), 0);
    store.insert_account(row_for("alice")).unwrap();
    store.insert_account(row_for("bob")).unwrap();
    assert_eq!(store.count_username("alice"), 1);
    assert_eq!(store.count_username("bob"), 1);
    assert_eq!(store.count_username("carol"), 0);
    assert!(store.contains_username("alice"));
    assert!(!store.contains_username("carol"));
}

#[test]
fn racing_inserts_for_one_username_leave_one_row() {
    let mut store = AccountStore::new();
    // Both requests pass the pre-check before either inserts.
    assert_eq!(store.count_username("bob"), 0);
    assert_eq!(store.count_username("bob"), 0);
    let first = store.insert_account(row_for("bob"));
    let second = store.insert_account(row_for("bob"));
    assert!(first.is_ok());
    assert_eq!(second, Err(StoreError::DuplicateUsername));
    assert_eq!(store.count_username("bob"), 1);
}

#[test]
fn inserted_row_keeps_its_fields() {
    let mut store = AccountStore::new();
    store.insert_account(row_for("alice")).unwrap();
    let row = store.row(0);
    assert_eq!(row.id, 1);
    assert_eq!(row.username, "alice");
    assert_eq!(row.password_hash, "$argon2id$stub");
    assert_eq!(row.latitude, Some(1_000_000));
    assert_eq!(row.longitude, Some(2_000_000));
    assert_eq!(row.real_name, None);
    assert_eq!(row.bio, None);
}
