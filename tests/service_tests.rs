use back_auth::password::PasswordError;
use back_auth::password::verify_password;
use back_auth::service::{
    cleanup_expired_sessions, extract_session_token, me, signin, signin_finish, signin_lookup,
    signin_with, signout, signup, signup_with, validate, SigninError, SignupError,
    ValidationError, SESSION_TTL_SECS,
};
use back_auth::store::{AuthStore, StoreError};

const NOW: u64 = 1_700_000_000;

/// An address as the validator accepts it.
fn ok(email: &str) -> Result<String, String> {
    Ok(email.to_string())
}

fn cookie(token: &str) -> String {
    format!("theme=dark; session_token={token}; lang=en")
}

#[test]
fn signup_signin_validate_signout_scenario() {
    let mut store = AuthStore::new();
    let first = signup(&mut store, ok("A@Example.com"), "correct-horse", NOW).unwrap();
    assert_eq!(first.account_id, 1);
    assert_eq!(first.token.len(), 64);
    assert_eq!(first.expires_at, NOW + SESSION_TTL_SECS);

    let again = signup(&mut store, ok("a@example.com"), "correct-horse", NOW);
    assert!(matches!(again, Err(SignupError::Conflict)));

    let wrong = signin(&mut store, ok("A@Example.com"), "battery-staple", NOW + 1);
    assert!(matches!(wrong, Err(SigninError::IncorrectPassword)));

    let grant = signin(&mut store, ok("a@example.com"), "correct-horse", NOW + 2).unwrap();
    assert_eq!(grant.account_id, first.account_id);
    assert_ne!(grant.token, first.token);

    let header = cookie(&grant.token);
    assert_eq!(validate(&store, Some(&header), NOW + 3), Ok(first.account_id));
    assert_eq!(me(&store, Some(&header), NOW + 3), Ok((1, "a@example.com".to_string())));

    assert_eq!(signout(&mut store, Some(&header)), Ok(()));
    assert_eq!(
        validate(&store, Some(&header), NOW + 4),
        Err(ValidationError::InvalidToken)
    );
    // The signup session is untouched.
    assert_eq!(validate(&store, Some(&cookie(&first.token)), NOW + 4), Ok(1));
}

#[test]
fn signup_rejects_invalid_email_without_touching_store() {
    let mut store = AuthStore::new();
    let r = signup(&mut store, Err("Missing an '@' sign.".to_string()), "pw", NOW);
    match r {
        Err(SignupError::InvalidEmail(m)) => assert_eq!(m, "Missing an '@' sign."),
        other => panic!("unexpected {other:?}"),
    }
    assert_eq!(store.account_count(), 0);
    assert_eq!(store.session_count(), 0);
}

#[test]
fn signin_unknown_account() {
    let mut store = AuthStore::new();
    let r = signin_with(&mut store, ok("nobody@example.com"), "pw", "t".to_string(), NOW);
    assert!(matches!(r, Err(SigninError::AccountNotFound)));
    let r = signin_with(&mut store, Err("bad".to_string()), "pw", "t".to_string(), NOW);
    assert!(matches!(r, Err(SigninError::InvalidEmail(_))));
}

#[test]
fn signup_with_fixed_values() {
    let mut store = AuthStore::new();
    let g = signup_with(&mut store, ok("Bob@Host.org"), Ok("d1".to_string()), "tok1".to_string(), 10)
        .unwrap();
    assert_eq!(g.token, "tok1");
    assert_eq!(g.account_id, 1);
    assert_eq!(g.expires_at, 10 + SESSION_TTL_SECS);
    assert_eq!(store.find_by_email(&"bob@host.org".to_string()), Some((1, "d1".to_string())));

    let g2 = signup_with(&mut store, ok("carol@host.org"), Ok("d2".to_string()), "tok2".to_string(), 10)
        .unwrap();
    assert_eq!(g2.account_id, 2);

    let dup = signup_with(&mut store, ok("BOB@host.org"), Ok("d3".to_string()), "tok3".to_string(), 10);
    assert!(matches!(dup, Err(SignupError::Conflict)));

    let hash_failed = signup_with(
        &mut store,
        ok("dave@host.org"),
        Err(PasswordError::HashFailed("boom".to_string())),
        "tok4".to_string(),
        10,
    );
    assert!(matches!(hash_failed, Err(SignupError::PasswordHashError(_))));
    assert_eq!(store.account_count(), 2);
}

#[test]
fn signup_partial_success_when_token_taken() {
    let mut store = AuthStore::new();
    signup_with(&mut store, ok("a@host.org"), Ok("d".to_string()), "same".to_string(), 10).unwrap();
    let r = signup_with(&mut store, ok("b@host.org"), Ok("d".to_string()), "same".to_string(), 10);
    assert!(matches!(
        r,
        Err(SignupError::AccountCreatedSessionFailed(2, StoreError::DuplicateToken))
    ));
    assert_eq!(store.account_count(), 2);
    assert_eq!(store.session_count(), 1);
}

#[test]
fn signup_partial_success_when_expiry_overflows() {
    let mut store = AuthStore::new();
    let r = signup_with(&mut store, ok("a@host.org"), Ok("d".to_string()), "t".to_string(), u64::MAX);
    assert!(matches!(
        r,
        Err(SignupError::AccountCreatedSessionFailed(1, StoreError::ExpiryOverflow))
    ));
}

#[test]
fn signin_with_corrupt_digest() {
    let mut store = AuthStore::new();
    signup_with(&mut store, ok("a@host.org"), Ok("not a digest".to_string()), "t1".to_string(), 10)
        .unwrap();
    let r = signin_with(&mut store, ok("a@host.org"), "pw", "t2".to_string(), 10);
    assert!(matches!(
        r,
        Err(SigninError::PasswordHashError(PasswordError::CorruptDigest))
    ));
}

#[test]
fn signin_then_session_failure() {
    let mut store = AuthStore::new();
    let digest = back_auth::password::hash_password("pw").unwrap();
    signup_with(&mut store, ok("a@host.org"), Ok(digest), "t1".to_string(), 10).unwrap();
    let r = signin_with(&mut store, ok("a@host.org"), "pw", "t1".to_string(), 10);
    assert!(matches!(r, Err(SigninError::SessionError(StoreError::DuplicateToken))));
    let fine = signin_with(&mut store, ok("a@host.org"), "pw", "t2".to_string(), 20).unwrap();
    assert_eq!(fine.account_id, 1);
    assert_eq!(fine.expires_at, 20 + SESSION_TTL_SECS);
}

#[test]
fn token_expires_after_ttl() {
    let mut store = AuthStore::new();
    let g = signup_with(&mut store, ok("a@host.org"), Ok("d".to_string()), "tok".to_string(), 100)
        .unwrap();
    let header = cookie(&g.token);
    assert_eq!(validate(&store, Some(&header), 100), Ok(1));
    assert_eq!(validate(&store, Some(&header), 100 + SESSION_TTL_SECS - 1), Ok(1));
    assert_eq!(validate(&store, Some(&header), 100 + SESSION_TTL_SECS), Ok(1));
    assert_eq!(
        validate(&store, Some(&header), 100 + SESSION_TTL_SECS + 1),
        Err(ValidationError::InvalidToken)
    );
    assert_eq!(
        me(&store, Some(&header), 100 + SESSION_TTL_SECS + 1),
        Err(ValidationError::InvalidToken)
    );
}

#[test]
fn signout_unknown_token_is_ok() {
    let mut store = AuthStore::new();
    assert_eq!(signout(&mut store, Some("session_token=nothing-here")), Ok(()));
    assert_eq!(signout(&mut store, None), Err(ValidationError::NoCookies));
    assert_eq!(signout(&mut store, Some("a=b")), Err(ValidationError::NoSessionToken));
}

#[test]
fn extract_token_errors() {
    assert_eq!(extract_session_token(None), Err(ValidationError::NoCookies));
    assert_eq!(extract_session_token(Some("")), Err(ValidationError::NoSessionToken));
    assert_eq!(
        extract_session_token(Some("x=1;session_token=abc")),
        Ok("abc".to_string())
    );
}

#[test]
fn reaper_deletes_exactly_the_expired() {
    let mut store = AuthStore::new();
    for (i, t) in [0u64, 10, 20, 30, 40].iter().enumerate() {
        let email = format!("user{i}@host.org");
        signup_with(&mut store, ok(&email), Ok("d".to_string()), format!("tok{i}"), *t).unwrap();
    }
    // At 25 + TTL the sessions created at 0, 10 and 20 have expired; 30 and 40 are live.
    let now = 25 + SESSION_TTL_SECS;
    assert_eq!(cleanup_expired_sessions(&mut store, now), 3);
    assert_eq!(store.session_count(), 2);
    assert_eq!(validate(&store, Some("session_token=tok3"), now), Ok(4));
    assert_eq!(validate(&store, Some("session_token=tok4"), now), Ok(5));
    assert_eq!(cleanup_expired_sessions(&mut store, now), 0);
    assert_eq!(store.account_count(), 5);
}

#[test]
fn reaper_on_empty_store() {
    let mut store = AuthStore::new();
    assert_eq!(cleanup_expired_sessions(&mut store, NOW), 0);
}

#[test]
fn signin_in_two_steps() {
    let mut store = AuthStore::new();
    let digest = back_auth::password::hash_password("pw").unwrap();
    signup_with(&mut store, ok("Ann@host.org"), Ok(digest.clone()), "t1".to_string(), 10).unwrap();
    let (id, stored) = signin_lookup(&store, ok("ANN@host.org")).unwrap();
    assert_eq!(id, 1);
    assert_eq!(stored, digest);
    assert!(matches!(signin_lookup(&store, ok("bob@host.org")), Err(SigninError::AccountNotFound)));

    let wrong = signin_finish(&mut store, id, verify_password("nope", &stored), "t2".to_string(), 11);
    assert!(matches!(wrong, Err(SigninError::IncorrectPassword)));
    assert_eq!(store.session_count(), 1);

    let g = signin_finish(&mut store, id, verify_password("pw", &stored), "t2".to_string(), 11).unwrap();
    assert_eq!((g.account_id, g.expires_at), (1, 11 + SESSION_TTL_SECS));
    assert_eq!(validate(&store, Some("session_token=t2"), 12), Ok(1));
}

#[test]
fn signup_hashes_and_signin_accepts() {
    let mut store = AuthStore::new();
    let g = signup(&mut store, ok("Zed@host.org"), "s3cret", NOW).unwrap();
    let (_, digest) = signin_lookup(&store, ok("zed@host.org")).unwrap();
    assert!(digest.starts_with("$argon2id$"));
    assert_eq!(verify_password("s3cret", &digest).unwrap(), true);
    assert_eq!(g.account_id, 1);
}

#[test]
fn sweep_keeps_session_expiring_at_sweep_time() {
    let mut store = AuthStore::new();
    signup_with(&mut store, ok("e@host.org"), Ok("d".to_string()), "tok".to_string(), 100).unwrap();
    let at = 100 + SESSION_TTL_SECS;
    assert_eq!(cleanup_expired_sessions(&mut store, at), 0);
    assert_eq!(validate(&store, Some("session_token=tok"), at), Ok(1));
    assert_eq!(cleanup_expired_sessions(&mut store, at + 1), 1);
    assert_eq!(store.session_count(), 0);
}
