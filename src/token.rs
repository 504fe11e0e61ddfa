//! Opaque session tokens drawn from a cryptographically secure source.
use crate::text::is_ascii_alnum;
use rand::Rng;
use vstd::prelude::*;

verus! {

/// Number of characters in a session token.
pub const TOKEN_LEN: usize = 64;

/// A well-formed token: `TOKEN_LEN` ASCII letters and digits.
pub open spec fn is_token(s: Seq<char>) -> bool {
    s.len() == TOKEN_LEN && forall|i: int| 0 <= i < s.len() ==> is_ascii_alnum(#[trigger] s[i])
}

/// Relies on rand's `Alphanumeric` distribution sampled from `rand::rng()`:
/// one byte out of `A-Z`, `a-z` and `0-9`.
#[verifier::external_body]
fn random_alphanumeric() -> (r: u8)
    ensures
        is_ascii_alnum(r as char),
{
    rand::rng().sample(rand::distr::Alphanumeric)
}

/// A fresh random token of `TOKEN_LEN` alphanumeric characters.
pub fn generate_session_token() -> (r: String)
    ensures
        is_token(r@),
{
    let mut v: Vec<char> = Vec::new();
    let mut i: usize = 0;
    while i < TOKEN_LEN
        invariant
            i <= TOKEN_LEN,
            v@.len() == i,
            forall|j: int| 0 <= j < i ==> is_ascii_alnum(#[trigger] v@[j]),
        decreases TOKEN_LEN - i,
    {
        let b = random_alphanumeric();
        v.push(b as char);
        i = i + 1;
    }
    crate::text::string_of(&v)
}

} // verus!
