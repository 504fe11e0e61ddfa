//! Properties that hold across several calls of the authentication flows.
use crate::email::{fold_case, lemma_same_key, same_but_case};
use crate::password::digest_verdict;
use crate::service::{
    signin_result, signin_state, signup_result, signup_state, token_result, validate_result,
    GrantRecord, SigninError, SignupError, ValidationError, SESSION_TTL_SECS,
};
use crate::store::{
    lemma_expired_live_split, lemma_with_account, lemma_with_session, lemma_without_token,
    AccountRecord, StoreState,
};
use vstd::prelude::*;

verus! {

/// A validator outcome that accepted the address `n`.
pub open spec fn accepted(n: Seq<char>) -> Result<Seq<char>, String> {
    Ok(n)
}

/// What a successful signup leaves behind: a well-formed store where the
/// address's key names a new account holding the digest, and the signup
/// token resolving to that account up to its expiry time.
pub proof fn lemma_after_signup(
    st: StoreState,
    email: Seq<char>,
    digest: Seq<char>,
    token: Seq<char>,
    now: u64,
)
    requires
        st.wf(),
        signup_result(st, accepted(email), Ok(digest), token, now) is Ok,
    ensures
        ({
            let s = signup_state(st, accepted(email), Ok(digest), token, now);
            let k = fold_case(email);
            &&& s.wf()
            &&& s.has_email(k)
            &&& s.account_of(k) == (AccountRecord { id: st.next_id, email: k, digest })
            &&& signup_result(st, accepted(email), Ok(digest), token, now)->Ok_0.account_id
                == st.next_id
            &&& forall|later: u64|
                #[trigger] s.resolve(token, later) == if later <= now + SESSION_TTL_SECS {
                    Some(st.next_id)
                } else {
                    None::<u64>
                }
        }),
{
    let k = fold_case(email);
    lemma_with_account(st, k, digest);
    let s1 = st.with_account(k, digest);
    lemma_with_session(s1, token, st.next_id, now, SESSION_TTL_SECS);
    let s2 = s1.with_session(token, st.next_id, now, SESSION_TTL_SECS);
    assert(s2.accounts == s1.accounts);
    assert(s2.account_of(k) == s1.account_of(k));
    assert(s2.has_email(k));
}

/// After a successful signup, signing in with the same address and password
/// succeeds for the same account, and the new session validates up to its
/// expiry time. This needs a token not already in use and a clock that can still
/// hold the expiry.
pub proof fn lemma_signin_after_signup(
    st: StoreState,
    email: Seq<char>,
    password: Seq<char>,
    digest: Seq<char>,
    t1: Seq<char>,
    now1: u64,
    t2: Seq<char>,
    now2: u64,
    header: Seq<char>,
    later: u64,
)
    requires
        st.wf(),
        digest_verdict(password, digest) == Some(true),
        signup_result(st, accepted(email), Ok(digest), t1, now1) is Ok,
        !signup_state(st, accepted(email), Ok(digest), t1, now1).has_token(t2),
        now2 + SESSION_TTL_SECS <= u64::MAX,
        token_result(Some(header)) == Ok::<Seq<char>, ValidationError>(t2),
        later <= now2 + SESSION_TTL_SECS,
    ensures
        ({
            let id = signup_result(st, accepted(email), Ok(digest), t1, now1)->Ok_0.account_id;
            let s1 = signup_state(st, accepted(email), Ok(digest), t1, now1);
            &&& signin_result(s1, accepted(email), password, t2, now2) is Ok
            &&& signin_result(s1, accepted(email), password, t2, now2)->Ok_0.account_id == id
            &&& validate_result(
                signin_state(s1, accepted(email), password, t2, now2),
                Some(header),
                later,
            ) == Ok::<u64, ValidationError>(id)
        }),
{
    lemma_after_signup(st, email, digest, t1, now1);
    let s2 = signup_state(st, accepted(email), Ok(digest), t1, now1);
    lemma_with_session(s2, t2, st.next_id, now2, SESSION_TTL_SECS);
    let s3 = s2.with_session(t2, st.next_id, now2, SESSION_TTL_SECS);
    assert(s3.resolve(t2, later) == Some(st.next_id));
}

/// After a successful signup, signing in with a password that the stored
/// digest does not accept is refused and changes nothing.
pub proof fn lemma_wrong_password_refused(
    st: StoreState,
    email: Seq<char>,
    digest: Seq<char>,
    t1: Seq<char>,
    now1: u64,
    other: Seq<char>,
    t2: Seq<char>,
    now2: u64,
)
    requires
        st.wf(),
        signup_result(st, accepted(email), Ok(digest), t1, now1) is Ok,
        digest_verdict(other, digest) == Some(false),
    ensures
        ({
            let s1 = signup_state(st, accepted(email), Ok(digest), t1, now1);
            &&& signin_result(s1, accepted(email), other, t2, now2) == Err::<
                GrantRecord,
                SigninError,
            >(SigninError::IncorrectPassword)
            &&& signin_state(s1, accepted(email), other, t2, now2) == s1
        }),
{
    lemma_after_signup(st, email, digest, t1, now1);
}

/// Once an account exists for an address, signing up again with any address
/// that has the same key is refused as a conflict.
pub proof fn lemma_second_signup_conflicts(
    st: StoreState,
    e1: Seq<char>,
    e2: Seq<char>,
    d1: Seq<char>,
    d2: Seq<char>,
    t1: Seq<char>,
    t2: Seq<char>,
    now1: u64,
    now2: u64,
)
    requires
        st.wf(),
        signup_result(st, accepted(e1), Ok(d1), t1, now1) is Ok,
        fold_case(e2) == fold_case(e1),
    ensures
        signup_result(signup_state(st, accepted(e1), Ok(d1), t1, now1), accepted(e2), Ok(d2), t2, now2)
            == Err::<GrantRecord, SignupError>(SignupError::Conflict),
{
    lemma_after_signup(st, e1, d1, t1, now1);
}

/// Signing up again with the same address spelled in other letter cases is
/// refused as a conflict.
pub proof fn lemma_signup_conflict_ignoring_case(
    st: StoreState,
    e1: Seq<char>,
    e2: Seq<char>,
    d1: Seq<char>,
    d2: Seq<char>,
    t1: Seq<char>,
    t2: Seq<char>,
    now1: u64,
    now2: u64,
)
    requires
        st.wf(),
        signup_result(st, accepted(e1), Ok(d1), t1, now1) is Ok,
        same_but_case(e1, e2),
    ensures
        signup_result(signup_state(st, accepted(e1), Ok(d1), t1, now1), accepted(e2), Ok(d2), t2, now2)
            == Err::<GrantRecord, SignupError>(SignupError::Conflict),
{
    lemma_same_key(e1, e2);
    lemma_second_signup_conflicts(st, e1, e2, d1, d2, t1, t2, now1, now2);
}

/// A token granted by signup identifies its account from the moment it is
/// granted up to and including its expiry time, and is refused after it.
pub proof fn lemma_signup_session_lifetime(
    st: StoreState,
    email: Seq<char>,
    digest: Seq<char>,
    token: Seq<char>,
    now: u64,
    header: Seq<char>,
    later: u64,
)
    requires
        st.wf(),
        signup_result(st, accepted(email), Ok(digest), token, now) is Ok,
        token_result(Some(header)) == Ok::<Seq<char>, ValidationError>(token),
    ensures
        ({
            let g = signup_result(st, accepted(email), Ok(digest), token, now)->Ok_0;
            let v = validate_result(
                signup_state(st, accepted(email), Ok(digest), token, now),
                Some(header),
                later,
            );
            &&& g.expires_at == now + SESSION_TTL_SECS
            &&& later <= g.expires_at ==> v == Ok::<u64, ValidationError>(g.account_id)
            &&& g.expires_at < later ==> v == Err::<u64, ValidationError>(
                ValidationError::InvalidToken,
            )
        }),
{
    lemma_after_signup(st, email, digest, token, now);
}

/// A token granted by signin identifies its account from the moment it is
/// granted up to and including its expiry time, and is refused after it.
pub proof fn lemma_signin_session_lifetime(
    st: StoreState,
    email: Seq<char>,
    password: Seq<char>,
    token: Seq<char>,
    now: u64,
    header: Seq<char>,
    later: u64,
)
    requires
        st.wf(),
        signin_result(st, accepted(email), password, token, now) is Ok,
        token_result(Some(header)) == Ok::<Seq<char>, ValidationError>(token),
    ensures
        ({
            let g = signin_result(st, accepted(email), password, token, now)->Ok_0;
            let v = validate_result(
                signin_state(st, accepted(email), password, token, now),
                Some(header),
                later,
            );
            &&& g.expires_at == now + SESSION_TTL_SECS
            &&& later <= g.expires_at ==> v == Ok::<u64, ValidationError>(g.account_id)
            &&& g.expires_at < later ==> v == Err::<u64, ValidationError>(
                ValidationError::InvalidToken,
            )
        }),
{
    let id = st.account_of(fold_case(email)).id;
    lemma_with_session(st, token, id, now, SESSION_TTL_SECS);
    let s1 = st.with_session(token, id, now, SESSION_TTL_SECS);
    assert(s1.resolve(token, later) == if later <= now + SESSION_TTL_SECS {
        Some(id)
    } else {
        None::<u64>
    });
}

/// After the session named by a cookie header is signed out, the same header
/// no longer validates, at any time.
pub proof fn lemma_signout_revokes(st: StoreState, header: Seq<char>, now: u64)
    requires
        st.wf(),
        token_result(Some(header)) is Ok,
    ensures
        validate_result(st.without_token(token_result(Some(header))->Ok_0), Some(header), now)
            == Err::<u64, ValidationError>(ValidationError::InvalidToken),
{
    lemma_without_token(st, token_result(Some(header))->Ok_0, now);
}

/// A sweep at `now` over a store with N expired and M live sessions removes
/// exactly the N expired ones and keeps the M live ones.
pub proof fn lemma_sweep_partitions(st: StoreState, now: u64)
    requires
        st.wf(),
    ensures
        st.expired(now).len() + st.live(now).len() == st.sessions.len(),
        st.without_expired(now).sessions == st.live(now),
        st.without_expired(now).accounts == st.accounts,
        forall|i: int|
            0 <= i < st.without_expired(now).sessions.len() ==> now
                <= #[trigger] st.without_expired(now).sessions[i].expires_at,
{
    broadcast use vstd::seq_lib::group_filter_ensures;

    lemma_expired_live_split(st.sessions, now);
    assert forall|i: int| 0 <= i < st.without_expired(now).sessions.len() implies now
        <= #[trigger] st.without_expired(now).sessions[i].expires_at by {
        assert(crate::store::live_at(now)(st.live(now)[i]));
    }
}

} // verus!
