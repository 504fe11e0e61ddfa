use back_auth::password::{hash_password, verify_password, PasswordError};

#[test]
fn digest_verifies_only_its_password() {
    let d1 = hash_password("correct-horse").unwrap();
    let d2 = hash_password("correct-horse").unwrap();
    assert_ne!(d1, d2);
    assert!(d1.starts_with("$argon2id$"));
    assert_eq!(verify_password("correct-horse", &d1).unwrap(), true);
    assert_eq!(verify_password("correct-horse", &d2).unwrap(), true);
    // 'e' (0x65) with its lowest bit flipped is 'd' (0x64).
    assert_eq!(verify_password("correct-hors\u{64}", &d1).unwrap(), false);
    assert_eq!(verify_password("", &d1).unwrap(), false);
}

#[test]
fn malformed_digest_is_an_error() {
    assert!(matches!(
        verify_password("pw", "not-a-phc-string"),
        Err(PasswordError::CorruptDigest)
    ));
}
