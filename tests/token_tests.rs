use back_auth::token::{generate_session_token, TOKEN_LEN};

#[test]
fn tokens_are_long_alphanumeric_and_distinct() {
    let a = generate_session_token();
    let b = generate_session_token();
    assert_eq!(TOKEN_LEN, 64);
    assert_eq!(a.chars().count(), 64);
    assert!(a.chars().all(|c| c.is_ascii_alphanumeric()));
    assert_ne!(a, b);
}
