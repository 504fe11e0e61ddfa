//! The account and session store.
//!
//! Accounts are keyed by normalised email, which is unique; each gets a
//! stable numeric id. Sessions map an opaque token, unique too, to the id of
//! the account that owns it, with an absolute expiry. A session whose expiry
//! has passed resolves to nothing even before it is deleted.
use vstd::prelude::*;

verus! {

broadcast use vstd::seq_lib::group_seq_properties, Seq::lemma_filter_push, Seq::lemma_filter_contains_rev;

/// One account as the store holds it.
#[derive(Debug)]
pub struct Account {
    pub id: u64,
    pub email: String,
    pub digest: String,
}

/// One session as the store holds it. Times are in seconds.
#[derive(Debug)]
pub struct Session {
    pub token: String,
    pub account_id: u64,
    pub created_at: u64,
    pub expires_at: u64,
}

pub struct AccountRecord {
    pub id: u64,
    pub email: Seq<char>,
    pub digest: Seq<char>,
}

pub struct SessionRecord {
    pub token: Seq<char>,
    pub account_id: u64,
    pub created_at: u64,
    pub expires_at: u64,
}

impl View for Account {
    type V = AccountRecord;

    open spec fn view(&self) -> AccountRecord {
        AccountRecord { id: self.id, email: self.email@, digest: self.digest@ }
    }
}

impl View for Session {
    type V = SessionRecord;

    open spec fn view(&self) -> SessionRecord {
        SessionRecord {
            token: self.token@,
            account_id: self.account_id,
            created_at: self.created_at,
            expires_at: self.expires_at,
        }
    }
}

/// Failures of the store itself.
#[derive(Debug, Clone, Copy, PartialEq, Eq, Structural)]
pub enum StoreError {
    /// An account with this email already exists.
    Conflict,
    /// Every account id has been handed out.
    IdsExhausted,
    /// A session with this token already exists.
    DuplicateToken,
    /// The expiry time does not fit in the clock's range.
    ExpiryOverflow,
}

/// Sessions whose token is not `token`.
pub open spec fn other_token(token: Seq<char>) -> spec_fn(SessionRecord) -> bool {
    |s: SessionRecord| s.token != token
}

/// Sessions still live at `now`: their expiry has not passed.
pub open spec fn live_at(now: u64) -> spec_fn(SessionRecord) -> bool {
    |s: SessionRecord| now <= s.expires_at
}

/// Sessions whose expiry lies before `now`.
pub open spec fn expired_at(now: u64) -> spec_fn(SessionRecord) -> bool {
    |s: SessionRecord| s.expires_at < now
}

/// No two sessions share a token.
pub open spec fn tokens_unique(ss: Seq<SessionRecord>) -> bool {
    forall|i: int, j: int|
        0 <= i < ss.len() && 0 <= j < ss.len() && i != j ==> #[trigger] ss[i].token
            != #[trigger] ss[j].token
}

/// Removing sessions keeps tokens unique.
pub proof fn lemma_filter_tokens_unique(ss: Seq<SessionRecord>, p: spec_fn(SessionRecord) -> bool)
    requires
        tokens_unique(ss),
    ensures
        tokens_unique(ss.filter(p)),
    decreases ss.len(),
{
    if ss.len() > 0 {
        let init = ss.drop_last();
        let last = ss.last();
        assert(ss == init.push(last));
        lemma_filter_tokens_unique(init, p);
        let sub = init.filter(p);
        if p(last) {
            assert forall|k: int| 0 <= k < sub.len() implies #[trigger] sub[k].token != last.token by {
                assert(sub.contains(sub[k]));
                let m = choose|m: int| 0 <= m < init.len() && init[m] == sub[k];
                assert(ss[m] == init[m]);
                assert(ss[ss.len() - 1] == last);
            }
            let out = sub.push(last);
            assert forall|i: int, j: int|
                0 <= i < out.len() && 0 <= j < out.len() && i != j implies #[trigger] out[i].token
                != #[trigger] out[j].token by {
                if i < sub.len() && j < sub.len() {
                    assert(out[i] == sub[i] && out[j] == sub[j]);
                } else if i < sub.len() {
                    assert(out[i] == sub[i]);
                } else {
                    assert(out[j] == sub[j]);
                }
            }
        }
    }
}

/// The abstract contents of a store.
pub struct StoreState {
    pub accounts: Seq<AccountRecord>,
    pub sessions: Seq<SessionRecord>,
    pub next_id: u64,
}

impl StoreState {
    /// Emails and ids are unique, ids were all issued before `next_id`, and
    /// tokens are unique.
    pub open spec fn wf(self) -> bool {
        &&& 0 < self.next_id
        &&& forall|i: int, j: int|
            0 <= i < self.accounts.len() && 0 <= j < self.accounts.len() && i != j
                ==> #[trigger] self.accounts[i].email != #[trigger] self.accounts[j].email
        &&& forall|i: int|
            0 <= i < self.accounts.len() ==> 0 < #[trigger] self.accounts[i].id < self.next_id
        &&& forall|i: int, j: int|
            0 <= i < self.accounts.len() && 0 <= j < self.accounts.len() && i != j
                ==> #[trigger] self.accounts[i].id != #[trigger] self.accounts[j].id
        &&& tokens_unique(self.sessions)
    }

    pub proof fn lemma_account_of(self, i: int)
        requires
            self.wf(),
            0 <= i < self.accounts.len(),
        ensures
            self.has_email(self.accounts[i].email),
            self.account_of(self.accounts[i].email) == self.accounts[i],
    {
        let e = self.accounts[i].email;
        assert(self.accounts[i].email == e);
        let j = choose|j: int| 0 <= j < self.accounts.len() && #[trigger] self.accounts[j].email == e;
        assert(i == j);
    }

    pub proof fn lemma_account_by_id(self, i: int)
        requires
            self.wf(),
            0 <= i < self.accounts.len(),
        ensures
            self.has_account_id(self.accounts[i].id),
            self.account_by_id(self.accounts[i].id) == self.accounts[i],
    {
        let d = self.accounts[i].id;
        assert(self.accounts[i].id == d);
        let j = choose|j: int| 0 <= j < self.accounts.len() && #[trigger] self.accounts[j].id == d;
        assert(i == j);
    }

    pub proof fn lemma_session_of(self, i: int)
        requires
            self.wf(),
            0 <= i < self.sessions.len(),
        ensures
            self.has_token(self.sessions[i].token),
            self.session_of(self.sessions[i].token) == self.sessions[i],
    {
        let t = self.sessions[i].token;
        assert(self.sessions[i].token == t);
        let j = choose|j: int| 0 <= j < self.sessions.len() && #[trigger] self.sessions[j].token == t;
        assert(i == j);
    }

    pub open spec fn has_email(self, email: Seq<char>) -> bool {
        exists|i: int| 0 <= i < self.accounts.len() && #[trigger] self.accounts[i].email == email
    }

    /// The account registered under `email`.
    pub open spec fn account_of(self, email: Seq<char>) -> AccountRecord {
        let i = choose|i: int| 0 <= i < self.accounts.len() && #[trigger] self.accounts[i].email == email;
        self.accounts[i]
    }

    pub open spec fn has_account_id(self, id: u64) -> bool {
        exists|i: int| 0 <= i < self.accounts.len() && #[trigger] self.accounts[i].id == id
    }

    /// The account with id `id`.
    pub open spec fn account_by_id(self, id: u64) -> AccountRecord {
        let i = choose|i: int| 0 <= i < self.accounts.len() && #[trigger] self.accounts[i].id == id;
        self.accounts[i]
    }

    pub open spec fn has_token(self, token: Seq<char>) -> bool {
        exists|i: int| 0 <= i < self.sessions.len() && #[trigger] self.sessions[i].token == token
    }

    /// A session for `token` exists and its expiry has not passed at `now`:
    /// a session stays live up to and including its expiry second.
    pub open spec fn is_live(self, token: Seq<char>, now: u64) -> bool {
        exists|i: int|
            0 <= i < self.sessions.len() && #[trigger] self.sessions[i].token == token && now
                <= self.sessions[i].expires_at
    }

    /// The session stored for `token`.
    pub open spec fn session_of(self, token: Seq<char>) -> SessionRecord {
        let i = choose|i: int| 0 <= i < self.sessions.len() && #[trigger] self.sessions[i].token == token;
        self.sessions[i]
    }

    /// The owner of the live session for `token` at `now`, if any.
    pub open spec fn resolve(self, token: Seq<char>, now: u64) -> Option<u64> {
        if self.is_live(token, now) {
            Some(self.session_of(token).account_id)
        } else {
            None
        }
    }

    /// What creating an account for `email` gives.
    pub open spec fn create_account_result(self, email: Seq<char>) -> Result<u64, StoreError> {
        if self.has_email(email) {
            Err(StoreError::Conflict)
        } else if self.next_id == u64::MAX {
            Err(StoreError::IdsExhausted)
        } else {
            Ok(self.next_id)
        }
    }

    pub open spec fn with_account(self, email: Seq<char>, digest: Seq<char>) -> StoreState {
        StoreState {
            accounts: self.accounts.push(AccountRecord { id: self.next_id, email, digest }),
            sessions: self.sessions,
            next_id: (self.next_id + 1) as u64,
        }
    }

    /// What creating a session for `token` at `now`, lasting `ttl`, gives:
    /// its expiry time.
    pub open spec fn create_session_result(self, token: Seq<char>, now: u64, ttl: u64) -> Result<
        u64,
        StoreError,
    > {
        if now + ttl > u64::MAX {
            Err(StoreError::ExpiryOverflow)
        } else if self.has_token(token) {
            Err(StoreError::DuplicateToken)
        } else {
            Ok((now + ttl) as u64)
        }
    }

    pub open spec fn with_session(
        self,
        token: Seq<char>,
        account_id: u64,
        now: u64,
        ttl: u64,
    ) -> StoreState {
        StoreState {
            accounts: self.accounts,
            sessions: self.sessions.push(
                SessionRecord {
                    token,
                    account_id,
                    created_at: now,
                    expires_at: (now + ttl) as u64,
                },
            ),
            next_id: self.next_id,
        }
    }

    /// The store with the session for `token`, if any, removed.
    pub open spec fn without_token(self, token: Seq<char>) -> StoreState {
        StoreState {
            accounts: self.accounts,
            sessions: self.sessions.filter(other_token(token)),
            next_id: self.next_id,
        }
    }

    /// The sessions whose expiry has passed at `now`.
    pub open spec fn expired(self, now: u64) -> Seq<SessionRecord> {
        self.sessions.filter(expired_at(now))
    }

    /// The sessions still live at `now`.
    pub open spec fn live(self, now: u64) -> Seq<SessionRecord> {
        self.sessions.filter(live_at(now))
    }

    /// The store with every expired session removed.
    pub open spec fn without_expired(self, now: u64) -> StoreState {
        StoreState { accounts: self.accounts, sessions: self.live(now), next_id: self.next_id }
    }
}

pub open spec fn account_views(v: Seq<Account>) -> Seq<AccountRecord> {
    v.map_values(|a: Account| a@)
}

pub open spec fn session_views(v: Seq<Session>) -> Seq<SessionRecord> {
    v.map_values(|s: Session| s@)
}

/// Adding an account under a fresh email keeps the store well formed, and
/// the new account is the one found under that email.
pub proof fn lemma_with_account(st: StoreState, email: Seq<char>, digest: Seq<char>)
    requires
        st.wf(),
        !st.has_email(email),
        st.next_id < u64::MAX,
    ensures
        st.with_account(email, digest).wf(),
        st.with_account(email, digest).has_email(email),
        st.with_account(email, digest).account_of(email) == (AccountRecord {
            id: st.next_id,
            email,
            digest,
        }),
{
    let s1 = st.with_account(email, digest);
    let k = st.accounts.len() as int;
    assert(s1.accounts[k].email == email);
    assert forall|i: int, j: int|
        0 <= i < s1.accounts.len() && 0 <= j < s1.accounts.len() && i != j implies
        #[trigger] s1.accounts[i].email != #[trigger] s1.accounts[j].email
        && s1.accounts[i].id != s1.accounts[j].id by {
        if i < k && j < k {
            assert(s1.accounts[i] == st.accounts[i] && s1.accounts[j] == st.accounts[j]);
        } else if i < k {
            assert(s1.accounts[i] == st.accounts[i]);
        } else {
            assert(s1.accounts[j] == st.accounts[j]);
        }
    }
    assert forall|i: int| 0 <= i < s1.accounts.len() implies 0 < #[trigger] s1.accounts[i].id
        < s1.next_id by {
        if i < k {
            assert(s1.accounts[i] == st.accounts[i]);
        }
    }
    s1.lemma_account_of(k);
}

/// Adding a session under a fresh token keeps the store well formed, and the
/// token then resolves to its account exactly up to its expiry time.
pub proof fn lemma_with_session(st: StoreState, token: Seq<char>, account_id: u64, now: u64, ttl: u64)
    requires
        st.wf(),
        !st.has_token(token),
        now + ttl <= u64::MAX,
    ensures
        st.with_session(token, account_id, now, ttl).wf(),
        st.with_session(token, account_id, now, ttl).has_token(token),
        forall|later: u64|
            #[trigger] st.with_session(token, account_id, now, ttl).resolve(token, later) == if later
                <= now + ttl {
                Some(account_id)
            } else {
                None::<u64>
            },
{
    let s1 = st.with_session(token, account_id, now, ttl);
    let k = st.sessions.len() as int;
    assert(s1.sessions[k].token == token);
    assert forall|i: int, j: int|
        0 <= i < s1.sessions.len() && 0 <= j < s1.sessions.len() && i != j implies
        #[trigger] s1.sessions[i].token != #[trigger] s1.sessions[j].token by {
        if i < k && j < k {
            assert(s1.sessions[i] == st.sessions[i] && s1.sessions[j] == st.sessions[j]);
        } else if i < k {
            assert(s1.sessions[i] == st.sessions[i]);
        } else {
            assert(s1.sessions[j] == st.sessions[j]);
        }
    }
    s1.lemma_session_of(k);
}

/// After the session for `token` is removed, `token` resolves to nothing.
pub proof fn lemma_without_token(st: StoreState, token: Seq<char>, now: u64)
    requires
        st.wf(),
    ensures
        st.without_token(token).wf(),
        st.without_token(token).resolve(token, now) is None,
{
    broadcast use vstd::seq_lib::group_filter_ensures;

    lemma_filter_tokens_unique(st.sessions, other_token(token));
    let s1 = st.without_token(token);
    assert forall|i: int| 0 <= i < s1.sessions.len() implies #[trigger] s1.sessions[i].token
        != token by {
        assert(other_token(token)(s1.sessions[i]));
    }
}

/// Every session is either expired or live at `now`, never both.
pub proof fn lemma_expired_live_split(ss: Seq<SessionRecord>, now: u64)
    ensures
        ss.filter(expired_at(now)).len() + ss.filter(live_at(now)).len() == ss.len(),
    decreases ss.len(),
{
    if ss.len() > 0 {
        let init = ss.drop_last();
        assert(ss == init.push(ss.last()));
        lemma_expired_live_split(init, now);
        init.lemma_filter_push(ss.last(), expired_at(now));
        init.lemma_filter_push(ss.last(), live_at(now));
    }
}

/// An in-memory account and session store.
pub struct AuthStore {
    accounts: Vec<Account>,
    sessions: Vec<Session>,
    next_id: u64,
}

impl View for AuthStore {
    type V = StoreState;

    closed spec fn view(&self) -> StoreState {
        StoreState {
            accounts: account_views(self.accounts@),
            sessions: session_views(self.sessions@),
            next_id: self.next_id,
        }
    }
}


impl Session {
    /// A field-by-field copy.
    pub fn copy(&self) -> (r: Session)
        ensures
            r@ == self@,
    {
        Session {
            token: self.token.clone(),
            account_id: self.account_id,
            created_at: self.created_at,
            expires_at: self.expires_at,
        }
    }
}

impl AuthStore {
    #[verifier::type_invariant]
    spec fn inv(self) -> bool {
        self@.wf()
    }

    /// Every store is well formed.
    pub fn well_formed(&self)
        ensures
            self@.wf(),
    {
        proof {
            use_type_invariant(self);
        }
    }

    /// An empty store; the first account gets id 1.
    pub fn new() -> (r: AuthStore)
        ensures
            r@.wf(),
            r@.accounts.len() == 0,
            r@.sessions.len() == 0,
            r@.next_id == 1,
    {
        let r = AuthStore { accounts: Vec::new(), sessions: Vec::new(), next_id: 1 };
        assert(r@.accounts =~= Seq::<AccountRecord>::empty());
        assert(r@.sessions =~= Seq::<SessionRecord>::empty());
        r
    }

    /// Number of accounts.
    pub fn account_count(&self) -> (r: usize)
        ensures
            r == self@.accounts.len(),
    {
        self.accounts.len()
    }

    /// Number of sessions held, expired or not.
    pub fn session_count(&self) -> (r: usize)
        ensures
            r == self@.sessions.len(),
    {
        self.sessions.len()
    }

    /// Id and digest of the account registered under `email`.
    pub fn find_by_email(&self, email: &String) -> (r: Option<(u64, String)>)
        ensures
            r is Some <==> self@.has_email(email@),
            r is Some ==> r->Some_0.0 == self@.account_of(email@).id && r->Some_0.1@
                == self@.account_of(email@).digest,
    {
        proof {
            use_type_invariant(self);
        }
        let mut i: usize = 0;
        while i < self.accounts.len()
            invariant
                i <= self.accounts@.len(),
                self@.wf(),
                forall|j: int| 0 <= j < i ==> #[trigger] self@.accounts[j].email != email@,
            decreases self.accounts@.len() - i,
        {
            if self.accounts[i].email == *email {
                proof {
                    self@.lemma_account_of(i as int);
                }
                let a = &self.accounts[i];
                return Some((a.id, a.digest.clone()));
            }
            i = i + 1;
        }
        None
    }

    /// Email of the account with id `id`.
    pub fn email_of(&self, id: u64) -> (r: Option<String>)
        ensures
            r is Some <==> self@.has_account_id(id),
            r is Some ==> r->Some_0@ == self@.account_by_id(id).email,
    {
        proof {
            use_type_invariant(self);
        }
        let mut i: usize = 0;
        while i < self.accounts.len()
            invariant
                i <= self.accounts@.len(),
                self@.wf(),
                forall|j: int| 0 <= j < i ==> #[trigger] self@.accounts[j].id != id,
            decreases self.accounts@.len() - i,
        {
            if self.accounts[i].id == id {
                proof {
                    self@.lemma_account_by_id(i as int);
                }
                return Some(self.accounts[i].email.clone());
            }
            i = i + 1;
        }
        None
    }

    /// Registers an account. Uniqueness of the email is checked by the store
    /// itself, in the same step as the insertion.
    pub fn create_account(&mut self, email: String, digest: String) -> (r: Result<u64, StoreError>)
        ensures
            final(self)@.wf(),
            r == old(self)@.create_account_result(email@),
            r is Ok ==> final(self)@ == old(self)@.with_account(email@, digest@),
            r is Err ==> final(self)@ == old(self)@,
    {
        proof {
            use_type_invariant(&*self);
        }
        let mut i: usize = 0;
        while i < self.accounts.len()
            invariant
                i <= self.accounts@.len(),
                self@ == old(self)@,
                self@.wf(),
                forall|j: int| 0 <= j < i ==> #[trigger] self@.accounts[j].email != email@,
            decreases self.accounts@.len() - i,
        {
            if self.accounts[i].email == email {
                assert(self@.accounts[i as int].email == email@);
                return Err(StoreError::Conflict);
            }
            i = i + 1;
        }
        if self.next_id == u64::MAX {
            return Err(StoreError::IdsExhausted);
        }
        let ghost pre = self@;
        let id = self.next_id;
        let mut accounts: Vec<Account> = Vec::new();
        std::mem::swap(&mut accounts, &mut self.accounts);
        accounts.push(Account { id, email, digest });
        self.next_id = id + 1;
        proof {
            lemma_with_account(pre, email@, digest@);
            assert(self@.sessions =~= pre.sessions);
            assert(account_views(accounts@) =~= pre.accounts.push(accounts@.last()@));
        }
        self.accounts = accounts;
        assert(self@ == pre.with_account(email@, digest@));
        Ok(id)
    }

    fn token_index(&self, token: &String) -> (r: Option<usize>)
        ensures
            r is None <==> !self@.has_token(token@),
            r is Some ==> r->Some_0 < self@.sessions.len() && self@.sessions[r->Some_0 as int].token
                == token@ && self@.session_of(token@) == self@.sessions[r->Some_0 as int],
    {
        proof {
            use_type_invariant(self);
        }
        let mut i: usize = 0;
        while i < self.sessions.len()
            invariant
                i <= self.sessions@.len(),
                self@.wf(),
                forall|j: int| 0 <= j < i ==> #[trigger] self@.sessions[j].token != token@,
            decreases self.sessions@.len() - i,
        {
            if self.sessions[i].token == *token {
                proof {
                    self@.lemma_session_of(i as int);
                }
                return Some(i);
            }
            i = i + 1;
        }
        None
    }

    /// Opens a session for `account_id` that expires `ttl` seconds after `now`.
    pub fn create_session(&mut self, token: String, account_id: u64, now: u64, ttl: u64) -> (r:
        Result<u64, StoreError>)
        ensures
            final(self)@.wf(),
            r == old(self)@.create_session_result(token@, now, ttl),
            r is Ok ==> final(self)@ == old(self)@.with_session(token@, account_id, now, ttl),
            r is Ok ==> forall|later: u64|
                #[trigger] final(self)@.resolve(token@, later) == if later <= now + ttl {
                    Some(account_id)
                } else {
                    None::<u64>
                },
            r is Err ==> final(self)@ == old(self)@,
    {
        proof {
            use_type_invariant(&*self);
        }
        if now > u64::MAX - ttl {
            return Err(StoreError::ExpiryOverflow);
        }
        if self.token_index(&token).is_some() {
            return Err(StoreError::DuplicateToken);
        }
        let ghost pre = self@;
        let ghost t = token@;
        let mut sessions: Vec<Session> = Vec::new();
        assert(session_views(sessions@) =~= Seq::<SessionRecord>::empty());
        assert(pre.accounts == account_views(self.accounts@));
        assert(tokens_unique(session_views(sessions@)));
        std::mem::swap(&mut sessions, &mut self.sessions);
        sessions.push(Session { token, account_id, created_at: now, expires_at: now + ttl });
        proof {
            lemma_with_session(pre, t, account_id, now, ttl);
            assert(session_views(sessions@) =~= pre.sessions.push(sessions@.last()@));
        }
        self.sessions = sessions;
        assert(self@ == pre.with_session(t, account_id, now, ttl));
        Ok(now + ttl)
    }

    /// The account that owns `token`, if its session exists and is live at `now`.
    pub fn resolve(&self, token: &String, now: u64) -> (r: Option<u64>)
        ensures
            r == self@.resolve(token@, now),
    {
        proof {
            use_type_invariant(self);
        }
        match self.token_index(token) {
            Some(i) => {
                if now <= self.sessions[i].expires_at {
                    Some(self.sessions[i].account_id)
                } else {
                    None
                }
            },
            None => None,
        }
    }

    /// Removes the session for `token`; removing an absent one does nothing.
    pub fn delete_session(&mut self, token: &String)
        ensures
            final(self)@.wf(),
            final(self)@ == old(self)@.without_token(token@),
            forall|later: u64| #[trigger] final(self)@.resolve(token@, later) is None,
    {
        proof {
            use_type_invariant(&*self);
        }
        let ghost pre = self@;
        let ghost keep = other_token(token@);
        let mut kept: Vec<Session> = Vec::new();
        let mut i: usize = 0;
        while i < self.sessions.len()
            invariant
                i <= self.sessions@.len(),
                self@ == pre,
                pre.wf(),
                keep == other_token(token@),
                session_views(kept@) == pre.sessions.take(i as int).filter(keep),
            decreases self.sessions@.len() - i,
        {
            assert(pre.sessions.take(i as int + 1) == pre.sessions.take(i as int).push(
                pre.sessions[i as int],
            ));
            assert(self.sessions@[i as int]@ == pre.sessions[i as int]);
            proof { pre.sessions.take(i as int).lemma_filter_push(pre.sessions[i as int], keep); }
            let ghost before = kept@;
            if !(self.sessions[i].token == *token) {
                kept.push(self.sessions[i].copy());
                assert(session_views(kept@) =~= session_views(before).push(
                    pre.sessions[i as int],
                ));
            }
            i = i + 1;
        }
        proof {
            assert(pre.sessions.take(pre.sessions.len() as int) =~= pre.sessions);
            lemma_filter_tokens_unique(pre.sessions, keep);
            assert(session_views(kept@) == pre.sessions.filter(keep));
            assert(tokens_unique(session_views(kept@)));
            assert(pre.accounts == account_views(self.accounts@));
            assert(pre.next_id == self.next_id);
        }
        self.sessions = kept;
        assert(self@.accounts =~= pre.accounts);
        assert forall|later: u64| #[trigger] self@.resolve(token@, later) is None by {
            lemma_without_token(pre, token@, later);
        }
    }

    /// Removes every session whose expiry has passed at `now`, and returns how
    /// many were removed.
    pub fn delete_expired(&mut self, now: u64) -> (r: usize)
        ensures
            final(self)@.wf(),
            final(self)@ == old(self)@.without_expired(now),
            r == old(self)@.expired(now).len(),
    {
        proof {
            use_type_invariant(&*self);
        }
        let ghost pre = self@;
        let ghost keep = live_at(now);
        let ghost gone = expired_at(now);
        let mut kept: Vec<Session> = Vec::new();
        let mut count: usize = 0;
        let mut i: usize = 0;
        while i < self.sessions.len()
            invariant
                i <= self.sessions@.len(),
                self@ == pre,
                pre.wf(),
                keep == live_at(now),
                gone == expired_at(now),
                session_views(kept@) == pre.sessions.take(i as int).filter(keep),
                count == pre.sessions.take(i as int).filter(gone).len(),
                count <= i,
            decreases self.sessions@.len() - i,
        {
            assert(pre.sessions.take(i as int + 1) == pre.sessions.take(i as int).push(
                pre.sessions[i as int],
            ));
            assert(self.sessions@[i as int]@ == pre.sessions[i as int]);
            proof { pre.sessions.take(i as int).lemma_filter_push(pre.sessions[i as int], keep); }
            proof { pre.sessions.take(i as int).lemma_filter_push(pre.sessions[i as int], gone); }
            let ghost before = kept@;
            if now <= self.sessions[i].expires_at {
                kept.push(self.sessions[i].copy());
                assert(session_views(kept@) =~= session_views(before).push(
                    pre.sessions[i as int],
                ));
            } else {
                count = count + 1;
            }
            i = i + 1;
        }
        proof {
            assert(pre.sessions.take(pre.sessions.len() as int) =~= pre.sessions);
            lemma_filter_tokens_unique(pre.sessions, keep);
            assert(session_views(kept@) == pre.sessions.filter(keep));
            assert(tokens_unique(session_views(kept@)));
            assert(pre.accounts == account_views(self.accounts@));
            assert(pre.next_id == self.next_id);
        }
        self.sessions = kept;
        assert(self@.accounts =~= pre.accounts);
        count
    }
}

} // verus!
