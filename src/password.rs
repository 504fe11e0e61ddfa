//! Password digests: salted Argon2id hashing and verification in PHC string
//! form.
use argon2::password_hash::rand_core::OsRng;
use argon2::password_hash::SaltString;
use argon2::{Argon2, PasswordHash, PasswordHasher, PasswordVerifier};
use vstd::prelude::*;

verus! {

/// What checking `password` against the PHC string `digest` gives: `None`
/// when the digest does not parse, else whether the password matches it.
pub uninterp spec fn digest_verdict(password: Seq<char>, digest: Seq<char>) -> Option<bool>;

/// Longest password, in characters, that hashing is sure to accept: its
/// UTF-8 encoding stays within Argon2's limit of `0xFFFF_FFFF` bytes.
pub const MAX_PASSWORD_CHARS: u64 = 0x3FFF_FFFF;

/// What verifying gives as a `Result`: a malformed digest is an error.
pub open spec fn verdict_result(v: Option<bool>) -> Result<bool, PasswordError> {
    match v {
        Some(b) => Ok(b),
        None => Err(PasswordError::CorruptDigest),
    }
}

/// Why a digest could not be made or read.
#[derive(Debug)]
pub enum PasswordError {
    /// Hashing failed; the text is the hasher's own message.
    HashFailed(String),
    /// The stored digest is not a well-formed PHC string.
    CorruptDigest,
}

/// Relies on argon2's `PasswordHasher::hash_password` with `Argon2::default()`
/// and a fresh salt from `SaltString::generate(&mut OsRng)`: a digest it
/// returns parses again and accepts the password it was made from. With the
/// default parameters and a generated salt, the one input it refuses is a
/// password longer than `MAX_PWD_LEN` (`0xFFFF_FFFF`) bytes.
#[verifier::external_body]
fn argon2_hash(password: &str) -> (r: Result<String, String>)
    ensures
        r is Ok ==> digest_verdict(password@, r->Ok_0@) == Some(true),
        password@.len() <= MAX_PASSWORD_CHARS ==> r is Ok,
{
    let salt = SaltString::generate(&mut OsRng);
    Argon2::default()
        .hash_password(password.as_bytes(), &salt)
        .map(|h| h.to_string())
        .map_err(|e| e.to_string())
}

/// Relies on argon2's `PasswordHash::new` and `PasswordVerifier::verify_password`
/// with `Argon2::default()`: the outcome depends on the two strings alone.
#[verifier::external_body]
fn argon2_verify(password: &str, digest: &str) -> (r: Option<bool>)
    ensures
        r == digest_verdict(password@, digest@),
{
    match PasswordHash::new(digest) {
        Ok(h) => Some(Argon2::default().verify_password(password.as_bytes(), &h).is_ok()),
        Err(_) => None,
    }
}

/// Derives a salted digest of `password`. Each call draws a new salt, so two
/// digests of one password differ, and each verifies against it. Hashing
/// succeeds for every password of at most `MAX_PASSWORD_CHARS` characters.
pub fn hash_password(password: &str) -> (r: Result<String, PasswordError>)
    ensures
        r is Ok ==> digest_verdict(password@, r->Ok_0@) == Some(true),
        password@.len() <= MAX_PASSWORD_CHARS ==> r is Ok,
        r is Err ==> r->Err_0 is HashFailed,
{
    match argon2_hash(password) {
        Ok(d) => Ok(d),
        Err(msg) => Err(PasswordError::HashFailed(msg)),
    }
}

/// Checks `password` against a stored digest; a mismatch is `Ok(false)`, and
/// only a malformed digest is an error.
pub fn verify_password(password: &str, digest: &str) -> (r: Result<bool, PasswordError>)
    ensures
        r == verdict_result(digest_verdict(password@, digest@)),
{
    match argon2_verify(password, digest) {
        Some(b) => Ok(b),
        None => Err(PasswordError::CorruptDigest),
    }
}

} // verus!
