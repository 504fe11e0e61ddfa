use back_auth::cookie::find_session_token;
use back_auth::email::account_key;
use back_auth::service::{signup_with, validate, SignupError};
use back_auth::store::AuthStore;
use back_auth::token::generate_session_token;

#[test]
fn case_variants_share_a_key() {
    assert_eq!(account_key("A@Example.com"), account_key("a@EXAMPLE.COM"));
}

#[test]
fn case_variant_signup_conflicts() {
    let mut store = AuthStore::new();
    signup_with(&mut store, Ok("Mixed.Case@Host.ORG".to_string()), Ok("d".to_string()), "t1".to_string(), 0).unwrap();
    let r = signup_with(&mut store, Ok("mixed.case@host.org".to_string()), Ok("d".to_string()), "t2".to_string(), 0);
    assert!(matches!(r, Err(SignupError::Conflict)));
}

#[test]
fn set_cookie_form_round_trips() {
    let t = generate_session_token();
    assert_eq!(find_session_token(&format!("session_token={t}")), Some(t.clone()));
    let mut store = AuthStore::new();
    let g = signup_with(&mut store, Ok("r@host.org".to_string()), Ok("d".to_string()), t.clone(), 5).unwrap();
    assert_eq!(validate(&store, Some(&format!("session_token={}", g.token)), 6), Ok(1));
}
