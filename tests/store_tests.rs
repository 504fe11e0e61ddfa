use back_auth::store::{AuthStore, StoreError};

#[test]
fn accounts_are_unique_by_email() {
    let mut s = AuthStore::new();
    assert_eq!(s.create_account("a@x.io".to_string(), "d".to_string()), Ok(1));
    assert_eq!(s.create_account("b@x.io".to_string(), "e".to_string()), Ok(2));
    assert_eq!(s.create_account("a@x.io".to_string(), "f".to_string()), Err(StoreError::Conflict));
    assert_eq!(s.find_by_email(&"b@x.io".to_string()), Some((2, "e".to_string())));
    assert_eq!(s.find_by_email(&"c@x.io".to_string()), None);
    assert_eq!(s.email_of(1), Some("a@x.io".to_string()));
    assert_eq!(s.email_of(9), None);
}

#[test]
fn sessions_resolve_until_expiry_and_delete_is_idempotent() {
    let mut s = AuthStore::new();
    let t = "tok".to_string();
    assert_eq!(s.create_session(t.clone(), 7, 100, 50), Ok(150));
    assert_eq!(s.create_session(t.clone(), 8, 100, 50), Err(StoreError::DuplicateToken));
    assert_eq!(s.create_session("x".to_string(), 8, u64::MAX - 10, 50), Err(StoreError::ExpiryOverflow));
    assert_eq!(s.resolve(&t, 149), Some(7));
    assert_eq!(s.resolve(&t, 150), Some(7));
    assert_eq!(s.resolve(&t, 151), None);
    s.delete_session(&t);
    assert_eq!(s.resolve(&t, 120), None);
    s.delete_session(&t);
    assert_eq!(s.session_count(), 0);
}

#[test]
fn delete_expired_counts() {
    let mut s = AuthStore::new();
    s.create_session("a".to_string(), 1, 0, 10).unwrap();
    s.create_session("b".to_string(), 1, 5, 10).unwrap();
    s.create_session("c".to_string(), 1, 20, 10).unwrap();
    // Expiries are 10, 15 and 30: at 15 only the first has passed.
    assert_eq!(s.delete_expired(15), 1);
    assert_eq!(s.session_count(), 2);
    assert_eq!(s.delete_expired(16), 1);
    assert_eq!(s.session_count(), 1);
    assert_eq!(s.resolve(&"c".to_string(), 15), Some(1));
}
