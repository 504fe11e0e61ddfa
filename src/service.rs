//! The authentication flows: signup, signin, signout, validate and the
//! expiry sweep, each over an [`AuthStore`].
//!
//! Email addresses arrive already validated: a flow takes the validator's
//! outcome, the normalised address or the reason it was refused. Every flow
//! that needs a random value (a password salt, a session token) has a
//! counterpart that takes that value as an argument and whose result is
//! fixed exactly by its arguments and the store. The flow itself draws the
//! values and hands them on.
use crate::cookie::{find_session_token, session_token_in};
use crate::email::{account_key, fold_case};
use crate::password::{
    digest_verdict, hash_password, verdict_result, verify_password, PasswordError,
    MAX_PASSWORD_CHARS,
};
use crate::store::{AuthStore, StoreError, StoreState};
use crate::token::{generate_session_token, is_token};
use vstd::prelude::*;

verus! {

/// How long a session lasts, in seconds.
pub const SESSION_TTL_SECS: u64 = 3600;

/// Credentials as a client sends them.
pub struct SignRequest {
    pub email: String,
    pub password: String,
}

/// A session handed to a client: the token for its cookie, the account it
/// belongs to, and when it expires.
#[derive(Debug)]
pub struct SessionGrant {
    pub token: String,
    pub account_id: u64,
    pub expires_at: u64,
}

pub struct GrantRecord {
    pub token: Seq<char>,
    pub account_id: u64,
    pub expires_at: u64,
}

impl View for SessionGrant {
    type V = GrantRecord;

    open spec fn view(&self) -> GrantRecord {
        GrantRecord { token: self.token@, account_id: self.account_id, expires_at: self.expires_at }
    }
}

#[derive(Debug)]
pub enum SignupError {
    /// The validator refused the address, for this reason.
    InvalidEmail(String),
    /// An account with this email already exists.
    Conflict,
    PasswordHashError(PasswordError),
    DatabaseError(StoreError),
    /// The account was created under this id, but its session was not.
    AccountCreatedSessionFailed(u64, StoreError),
}

#[derive(Debug)]
pub enum SigninError {
    /// The validator refused the address, for this reason.
    InvalidEmail(String),
    IncorrectPassword,
    AccountNotFound,
    /// The password was right, but the session could not be saved.
    SessionError(StoreError),
    PasswordHashError(PasswordError),
}

#[derive(Debug, Clone, Copy, PartialEq, Eq, Structural)]
pub enum ValidationError {
    NoCookies,
    NoSessionToken,
    InvalidToken,
}

pub open spec fn grant_view<E>(r: Result<SessionGrant, E>) -> Result<GrantRecord, E> {
    match r {
        Ok(g) => Ok(g@),
        Err(e) => Err(e),
    }
}

pub open spec fn digest_view(d: Result<String, PasswordError>) -> Result<Seq<char>, PasswordError> {
    match d {
        Ok(s) => Ok(s@),
        Err(e) => Err(e),
    }
}

pub open spec fn header_view(h: Option<&str>) -> Option<Seq<char>> {
    match h {
        Some(s) => Some(s@),
        None => None,
    }
}

pub open spec fn email_view(e: Result<String, String>) -> Result<Seq<char>, String> {
    match e {
        Ok(s) => Ok(s@),
        Err(m) => Err(m),
    }
}

/// What signing up gives, for a validator outcome, a digest and a token.
pub open spec fn signup_result(
    st: StoreState,
    email: Result<Seq<char>, String>,
    digest: Result<Seq<char>, PasswordError>,
    token: Seq<char>,
    now: u64,
) -> Result<GrantRecord, SignupError> {
    match email {
        Err(m) => Err(SignupError::InvalidEmail(m)),
        Ok(n) => match digest {
            Err(e) => Err(SignupError::PasswordHashError(e)),
            Ok(d) => match st.create_account_result(fold_case(n)) {
                Err(StoreError::Conflict) => Err(SignupError::Conflict),
                Err(e) => Err(SignupError::DatabaseError(e)),
                Ok(id) => match st.with_account(fold_case(n), d).create_session_result(
                    token,
                    now,
                    SESSION_TTL_SECS,
                ) {
                    Err(e) => Err(SignupError::AccountCreatedSessionFailed(id, e)),
                    Ok(exp) => Ok(GrantRecord { token, account_id: id, expires_at: exp }),
                },
            },
        },
    }
}

/// The store after signing up, for a validator outcome, a digest and a token.
pub open spec fn signup_state(
    st: StoreState,
    email: Result<Seq<char>, String>,
    digest: Result<Seq<char>, PasswordError>,
    token: Seq<char>,
    now: u64,
) -> StoreState {
    match email {
        Err(_) => st,
        Ok(n) => match digest {
            Err(_) => st,
            Ok(d) => if st.create_account_result(fold_case(n)) is Ok {
                let s1 = st.with_account(fold_case(n), d);
                if s1.create_session_result(token, now, SESSION_TTL_SECS) is Ok {
                    s1.with_session(token, st.next_id, now, SESSION_TTL_SECS)
                } else {
                    s1
                }
            } else {
                st
            },
        },
    }
}

/// The account that signing in with a validator outcome addresses: its id
/// and stored digest.
pub open spec fn lookup_result(st: StoreState, email: Result<Seq<char>, String>) -> Result<
    (u64, Seq<char>),
    SigninError,
> {
    match email {
        Err(m) => Err(SigninError::InvalidEmail(m)),
        Ok(n) => if st.has_email(fold_case(n)) {
            Ok((st.account_of(fold_case(n)).id, st.account_of(fold_case(n)).digest))
        } else {
            Err(SigninError::AccountNotFound)
        },
    }
}

/// What finishing a signin for account `id` gives, once the password check
/// has given `verdict`.
pub open spec fn finish_result(
    st: StoreState,
    id: u64,
    verdict: Result<bool, PasswordError>,
    token: Seq<char>,
    now: u64,
) -> Result<GrantRecord, SigninError> {
    match verdict {
        Err(e) => Err(SigninError::PasswordHashError(e)),
        Ok(false) => Err(SigninError::IncorrectPassword),
        Ok(true) => match st.create_session_result(token, now, SESSION_TTL_SECS) {
            Err(e) => Err(SigninError::SessionError(e)),
            Ok(exp) => Ok(GrantRecord { token, account_id: id, expires_at: exp }),
        },
    }
}

/// The store after finishing a signin.
pub open spec fn finish_state(
    st: StoreState,
    id: u64,
    verdict: Result<bool, PasswordError>,
    token: Seq<char>,
    now: u64,
) -> StoreState {
    if finish_result(st, id, verdict, token, now) is Ok {
        st.with_session(token, id, now, SESSION_TTL_SECS)
    } else {
        st
    }
}

/// What signing in gives, for a validator outcome, a password and a token.
pub open spec fn signin_result(
    st: StoreState,
    email: Result<Seq<char>, String>,
    password: Seq<char>,
    token: Seq<char>,
    now: u64,
) -> Result<GrantRecord, SigninError> {
    match lookup_result(st, email) {
        Err(e) => Err(e),
        Ok((id, d)) => finish_result(
            st,
            id,
            verdict_result(digest_verdict(password, d)),
            token,
            now,
        ),
    }
}

/// The store after signing in.
pub open spec fn signin_state(
    st: StoreState,
    email: Result<Seq<char>, String>,
    password: Seq<char>,
    token: Seq<char>,
    now: u64,
) -> StoreState {
    match lookup_result(st, email) {
        Err(_) => st,
        Ok((id, d)) => finish_state(
            st,
            id,
            verdict_result(digest_verdict(password, d)),
            token,
            now,
        ),
    }
}

/// The token named by a cookie header, or why there is none.
pub open spec fn token_result(header: Option<Seq<char>>) -> Result<Seq<char>, ValidationError> {
    match header {
        None => Err(ValidationError::NoCookies),
        Some(h) => match session_token_in(h) {
            None => Err(ValidationError::NoSessionToken),
            Some(t) => Ok(t),
        },
    }
}

/// The account that a cookie header identifies at `now`.
pub open spec fn validate_result(st: StoreState, header: Option<Seq<char>>, now: u64) -> Result<
    u64,
    ValidationError,
> {
    match token_result(header) {
        Err(e) => Err(e),
        Ok(t) => match st.resolve(t, now) {
            None => Err(ValidationError::InvalidToken),
            Some(id) => Ok(id),
        },
    }
}


/// Signs up with a validator outcome, a digest and a token supplied by the
/// caller: registers the account under the key of the address, and opens a
/// session.
pub fn signup_with(
    store: &mut AuthStore,
    email: Result<String, String>,
    digest: Result<String, PasswordError>,
    token: String,
    now: u64,
) -> (r: Result<SessionGrant, SignupError>)
    ensures
        grant_view(r) == signup_result(
            old(store)@,
            email_view(email),
            digest_view(digest),
            token@,
            now,
        ),
        final(store)@ == signup_state(
            old(store)@,
            email_view(email),
            digest_view(digest),
            token@,
            now,
        ),
{
    let n = match email {
        Ok(n) => n,
        Err(m) => return Err(SignupError::InvalidEmail(m)),
    };
    let d = match digest {
        Ok(d) => d,
        Err(e) => return Err(SignupError::PasswordHashError(e)),
    };
    let key = account_key(n.as_str());
    let id = match store.create_account(key, d) {
        Ok(id) => id,
        Err(StoreError::Conflict) => return Err(SignupError::Conflict),
        Err(e) => return Err(SignupError::DatabaseError(e)),
    };
    let kept = token.clone();
    match store.create_session(token, id, now, SESSION_TTL_SECS) {
        Ok(expires_at) => Ok(SessionGrant { token: kept, account_id: id, expires_at }),
        Err(e) => Err(SignupError::AccountCreatedSessionFailed(id, e)),
    }
}

/// Signs up: hashes the password with a fresh salt, registers the account,
/// and opens a session under a fresh token.
///
/// A refused address is reported before any hashing. Otherwise the outcome
/// is that of [`signup_with`] for the digest and token drawn here: the digest
/// accepts `password`, hashing succeeds for every password of at most
/// `MAX_PASSWORD_CHARS` characters, and the token is well formed.
pub fn signup(store: &mut AuthStore, email: Result<String, String>, password: &str, now: u64) -> (r:
    Result<SessionGrant, SignupError>)
    ensures
        email is Err ==> grant_view(r) == Err::<GrantRecord, SignupError>(
            SignupError::InvalidEmail(email->Err_0),
        ) && final(store)@ == old(store)@,
        email is Ok ==> exists|d: Result<Seq<char>, PasswordError>, t: Seq<char>|
            (password@.len() <= MAX_PASSWORD_CHARS ==> d is Ok) && (d is Ok ==> digest_verdict(
                password@,
                d->Ok_0,
            ) == Some(true)) && is_token(t) && #[trigger] signup_result(
                old(store)@,
                email_view(email),
                d,
                t,
                now,
            ) == grant_view(r) && final(store)@ == signup_state(
                old(store)@,
                email_view(email),
                d,
                t,
                now,
            ),
{
    let ghost e = email_view(email);
    let n = match email {
        Ok(n) => n,
        Err(m) => return Err(SignupError::InvalidEmail(m)),
    };
    let digest = hash_password(password);
    let token = generate_session_token();
    let ghost d = digest_view(digest);
    let ghost t = token@;
    let r = signup_with(store, Ok(n), digest, token, now);
    assert(signup_result(old(store)@, e, d, t, now) == grant_view(r));
    r
}

/// First step of signing in: the id and stored digest of the account that
/// the validated address names. Checking the password against the digest
/// needs no access to the store.
pub fn signin_lookup(store: &AuthStore, email: Result<String, String>) -> (r: Result<
    (u64, String),
    SigninError,
>)
    ensures
        match r {
            Ok((id, d)) => lookup_result(store@, email_view(email)) == Ok::<
                (u64, Seq<char>),
                SigninError,
            >((id, d@)),
            Err(e) => lookup_result(store@, email_view(email)) == Err::<
                (u64, Seq<char>),
                SigninError,
            >(e),
        },
{
    let n = match email {
        Ok(n) => n,
        Err(m) => return Err(SigninError::InvalidEmail(m)),
    };
    let key = account_key(n.as_str());
    match store.find_by_email(&key) {
        Some(found) => Ok(found),
        None => Err(SigninError::AccountNotFound),
    }
}

/// Last step of signing in: given the outcome of checking the password of
/// account `id`, opens a session under `token` or reports why not.
pub fn signin_finish(
    store: &mut AuthStore,
    id: u64,
    verdict: Result<bool, PasswordError>,
    token: String,
    now: u64,
) -> (r: Result<SessionGrant, SigninError>)
    ensures
        grant_view(r) == finish_result(old(store)@, id, verdict, token@, now),
        final(store)@ == finish_state(old(store)@, id, verdict, token@, now),
{
    match verdict {
        Ok(true) => {},
        Ok(false) => return Err(SigninError::IncorrectPassword),
        Err(e) => return Err(SigninError::PasswordHashError(e)),
    }
    let kept = token.clone();
    match store.create_session(token, id, now, SESSION_TTL_SECS) {
        Ok(expires_at) => Ok(SessionGrant { token: kept, account_id: id, expires_at }),
        Err(e) => Err(SigninError::SessionError(e)),
    }
}

/// Signs in with a token supplied by the caller: finds the account, checks
/// the password against its digest, and opens a session.
pub fn signin_with(
    store: &mut AuthStore,
    email: Result<String, String>,
    password: &str,
    token: String,
    now: u64,
) -> (r: Result<SessionGrant, SigninError>)
    ensures
        grant_view(r) == signin_result(old(store)@, email_view(email), password@, token@, now),
        final(store)@ == signin_state(old(store)@, email_view(email), password@, token@, now),
{
    let (id, digest) = signin_lookup(store, email)?;
    let verdict = verify_password(password, digest.as_str());
    signin_finish(store, id, verdict, token, now)
}

/// Signs in: the outcome is that of [`signin_with`] for a fresh, well-formed
/// token drawn here.
pub fn signin(store: &mut AuthStore, email: Result<String, String>, password: &str, now: u64) -> (r:
    Result<SessionGrant, SigninError>)
    ensures
        exists|t: Seq<char>|
            is_token(t) && #[trigger] signin_result(
                old(store)@,
                email_view(email),
                password@,
                t,
                now,
            ) == grant_view(r) && final(store)@ == signin_state(
                old(store)@,
                email_view(email),
                password@,
                t,
                now,
            ),
{
    let ghost e = email_view(email);
    let token = generate_session_token();
    let ghost t = token@;
    let r = signin_with(store, email, password, token, now);
    assert(signin_result(old(store)@, e, password@, t, now) == grant_view(r));
    r
}

/// The session token carried by a cookie header.
pub fn extract_session_token(cookie_header: Option<&str>) -> (r: Result<String, ValidationError>)
    ensures
        r is Ok <==> token_result(header_view(cookie_header)) is Ok,
        r is Ok ==> r->Ok_0@ == token_result(header_view(cookie_header))->Ok_0,
        r is Err ==> r->Err_0 == token_result(header_view(cookie_header))->Err_0,
{
    match cookie_header {
        None => Err(ValidationError::NoCookies),
        Some(h) => match find_session_token(h) {
            None => Err(ValidationError::NoSessionToken),
            Some(t) => Ok(t),
        },
    }
}

/// The account that a cookie header identifies at `now`: its token must
/// name a session that has not expired.
pub fn validate(store: &AuthStore, cookie_header: Option<&str>, now: u64) -> (r: Result<
    u64,
    ValidationError,
>)
    ensures
        r == validate_result(store@, header_view(cookie_header), now),
{
    let token = extract_session_token(cookie_header)?;
    match store.resolve(&token, now) {
        Some(id) => Ok(id),
        None => Err(ValidationError::InvalidToken),
    }
}

/// Ends the session named by a cookie header. Ending a session that does
/// not exist is no error.
pub fn signout(store: &mut AuthStore, cookie_header: Option<&str>) -> (r: Result<
    (),
    ValidationError,
>)
    ensures
        token_result(header_view(cookie_header)) is Err ==> r == Err::<(), ValidationError>(
            token_result(header_view(cookie_header))->Err_0,
        ) && final(store)@ == old(store)@,
        token_result(header_view(cookie_header)) is Ok ==> r is Ok && final(store)@ == old(
            store,
        )@.without_token(token_result(header_view(cookie_header))->Ok_0),
{
    let token = extract_session_token(cookie_header)?;
    store.delete_session(&token);
    Ok(())
}

/// Id and email of the account that a cookie header identifies at `now`.
pub fn me(store: &AuthStore, cookie_header: Option<&str>, now: u64) -> (r: Result<
    (u64, String),
    ValidationError,
>)
    ensures
        validate_result(store@, header_view(cookie_header), now) is Err ==> r is Err && r->Err_0
            == validate_result(store@, header_view(cookie_header), now)->Err_0,
        validate_result(store@, header_view(cookie_header), now) is Ok ==> ({
            let id = validate_result(store@, header_view(cookie_header), now)->Ok_0;
            if store@.has_account_id(id) {
                r is Ok && r->Ok_0.0 == id && r->Ok_0.1@ == store@.account_by_id(id).email
            } else {
                r == Err::<(u64, String), ValidationError>(ValidationError::InvalidToken)
            }
        }),
{
    let id = validate(store, cookie_header, now)?;
    match store.email_of(id) {
        Some(email) => Ok((id, email)),
        None => Err(ValidationError::InvalidToken),
    }
}

/// One sweep of the expiry reaper: deletes every session expired at `now`
/// and returns how many went.
pub fn cleanup_expired_sessions(store: &mut AuthStore, now: u64) -> (r: usize)
    ensures
        final(store)@ == old(store)@.without_expired(now),
        r == old(store)@.expired(now).len(),
{
    store.delete_expired(now)
}

} // verus!
