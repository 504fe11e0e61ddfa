//! The session cookie: building the `Set-Cookie` value that hands a token to
//! a client, and finding the token in the `Cookie` header it sends back.
//!
//! The header is a list of `name=value` pairs separated by `;`. Each pair is
//! trimmed of surrounding whitespace, and the first one that starts with
//! `session_token=` gives the token: the rest of that pair.
use crate::text::{chars_of, is_ascii_alnum, string_of, trim, trim_bounds};
use crate::token::is_token;
use vstd::prelude::*;

verus! {

/// The prefix that marks the session pair.
pub open spec fn token_key() -> Seq<char> {
    seq!['s', 'e', 's', 's', 'i', 'o', 'n', '_', 't', 'o', 'k', 'e', 'n', '=']
}

pub open spec fn starts_with(s: Seq<char>, p: Seq<char>) -> bool {
    s.len() >= p.len() && s.subrange(0, p.len() as int) == p
}

/// Index of the first `;` at or after `i`, or the length when there is none.
pub open spec fn next_semi(s: Seq<char>, i: int) -> int
    decreases s.len() - i,
{
    if i < 0 || i >= s.len() {
        s.len() as int
    } else if s[i] == ';' {
        i
    } else {
        next_semi(s, i + 1)
    }
}

pub proof fn lemma_next_semi_bounds(s: Seq<char>, i: int)
    requires
        0 <= i <= s.len(),
    ensures
        i <= next_semi(s, i) <= s.len(),
    decreases s.len() - i,
{
    if i < s.len() && s[i] != ';' {
        lemma_next_semi_bounds(s, i + 1);
    }
}

/// The token carried by the first session pair at or after position `i`.
pub open spec fn token_from(s: Seq<char>, i: int) -> Option<Seq<char>>
    decreases s.len() - i,
    via token_from_decreases
{
    if i < 0 || i > s.len() {
        None
    } else {
        let e = next_semi(s, i);
        let pair = trim(s.subrange(i, e));
        if starts_with(pair, token_key()) {
            Some(pair.subrange(token_key().len() as int, pair.len() as int))
        } else if e >= s.len() {
            None
        } else {
            token_from(s, e + 1)
        }
    }
}

#[via_fn]
proof fn token_from_decreases(s: Seq<char>, i: int) {
    if 0 <= i <= s.len() {
        lemma_next_semi_bounds(s, i);
    }
}

/// The session token in a cookie header.
pub open spec fn session_token_in(cookies: Seq<char>) -> Option<Seq<char>> {
    token_from(cookies, 0)
}

proof fn lemma_next_semi_none(s: Seq<char>, i: int)
    requires
        0 <= i <= s.len(),
        forall|j: int| i <= j < s.len() ==> s[j] != ';',
    ensures
        next_semi(s, i) == s.len(),
    decreases s.len() - i,
{
    if i < s.len() {
        lemma_next_semi_none(s, i + 1);
    }
}

/// The cookie `session_token=<t>` that the server sets carries exactly `t`.
pub proof fn lemma_cookie_carries_token(t: Seq<char>)
    requires
        is_token(t),
    ensures
        session_token_in(token_key() + t) == Some(t),
{
    let key = token_key();
    let s = key + t;
    assert forall|j: int| 0 <= j < s.len() implies s[j] != ';' by {
        if j >= key.len() {
            assert(s[j] == t[j - key.len()]);
            assert(is_ascii_alnum(t[j - key.len()]));
        }
    }
    lemma_next_semi_none(s, 0);
    assert(s.subrange(0, s.len() as int) =~= s);
    assert(s[0] == 's');
    assert(crate::text::trim_start(s) == s);
    assert(s.last() == t[t.len() - 1]);
    assert(is_ascii_alnum(t[t.len() - 1]));
    assert(crate::text::trim_end(s) == s);
    assert(s.subrange(0, key.len() as int) =~= key);
    assert(s.subrange(key.len() as int, s.len() as int) =~= t);
}

/// Does `s[a..b]` start with the session key?
fn has_key_at(s: &Vec<char>, key: &Vec<char>, a: usize, b: usize) -> (r: bool)
    requires
        a <= b <= s@.len(),
    ensures
        r == starts_with(s@.subrange(a as int, b as int), key@),
{
    let ghost pair = s@.subrange(a as int, b as int);
    if b - a < key.len() {
        return false;
    }
    let mut j: usize = 0;
    while j < key.len()
        invariant
            a <= b <= s@.len(),
            key@.len() <= b - a,
            j <= key@.len(),
            pair == s@.subrange(a as int, b as int),
            forall|k: int| 0 <= k < j ==> pair[k] == key@[k],
        decreases key@.len() - j,
    {
        if s[a + j] != key[j] {
            assert(pair.subrange(0, key@.len() as int)[j as int] != key@[j as int]);
            return false;
        }
        j = j + 1;
    }
    assert(pair.subrange(0, key@.len() as int) =~= key@);
    true
}

/// The value of the first `session_token` pair in `cookies`, if any.
pub fn find_session_token(cookies: &str) -> (r: Option<String>)
    ensures
        r is None <==> session_token_in(cookies@) is None,
        r is Some ==> r->Some_0@ == session_token_in(cookies@)->Some_0,
{
    let s = chars_of(cookies);
    let key = chars_of("session_token=");
    proof {
        reveal_strlit("session_token=");
    }
    assert(key@ =~= token_key());
    let n = s.len();
    let mut i: usize = 0;
    while i <= n
        invariant
            n == s@.len(),
            s@ == cookies@,
            key@ == token_key(),
            token_from(s@, 0) == token_from(s@, i as int),
        decreases n + 1 - i,
    {
        let mut e: usize = i;
        while e < n && s[e] != ';'
            invariant
                i <= e <= n == s@.len(),
                next_semi(s@, i as int) == next_semi(s@, e as int),
            decreases n - e,
        {
            e = e + 1;
        }
        let (a, b) = trim_bounds(&s, i, e);
        if has_key_at(&s, &key, a, b) {
            let mut out: Vec<char> = Vec::new();
            let mut j: usize = a + key.len();
            while j < b
                invariant
                    a + key@.len() <= j <= b <= s@.len(),
                    out@ == s@.subrange(a + key@.len(), j as int),
                decreases b - j,
            {
                out.push(s[j]);
                j = j + 1;
            }
            let ghost pair = s@.subrange(a as int, b as int);
            assert(out@ =~= pair.subrange(key@.len() as int, pair.len() as int));
            return Some(string_of(&out));
        }
        if e >= n {
            return None;
        }
        i = e + 1;
    }
    None
}


/// The `SameSite` attribute of the session cookie.
#[derive(Debug, Clone, Copy, PartialEq, Eq, Structural)]
pub enum SameSite {
    Strict,
    Lax,
    /// `SameSite=None`: the cookie is sent on cross-site requests too.
    CrossSite,
}

/// Attributes of the session cookie, fixed once at startup.
#[derive(Debug, Clone, Copy, PartialEq, Eq, Structural)]
pub struct SessionCookiePolicy {
    pub secure: bool,
    pub same_site: Option<SameSite>,
}

pub open spec fn same_site_text(s: SameSite) -> Seq<char> {
    match s {
        SameSite::Strict => "Strict"@,
        SameSite::Lax => "Lax"@,
        SameSite::CrossSite => "None"@,
    }
}

pub open spec fn digit_char(d: nat) -> char {
    ((d + 48) as u32) as char
}

/// The decimal digits of `n`.
pub open spec fn decimal(n: nat) -> Seq<char>
    decreases n,
{
    if n < 10 {
        seq![digit_char(n)]
    } else {
        decimal(n / 10).push(digit_char(n % 10))
    }
}

/// The `Set-Cookie` value that hands `token` to a client for `max_age`
/// seconds under `policy`.
pub open spec fn set_cookie_text(policy: SessionCookiePolicy, token: Seq<char>, max_age: u64) -> Seq<
    char,
> {
    token_key() + token + "; Max-Age="@ + decimal(max_age as nat) + "; Path=/; HttpOnly"@ + (if policy.secure {
        "; Secure"@
    } else {
        Seq::empty()
    }) + match policy.same_site {
        Some(s) => "; SameSite="@ + same_site_text(s),
        None => Seq::empty(),
    }
}

fn push_decimal(out: &mut Vec<char>, n: u64)
    ensures
        final(out)@ == old(out)@ + decimal(n as nat),
    decreases n,
{
    if n >= 10 {
        push_decimal(out, n / 10);
    }
    let d = (n % 10) as u8;
    out.push((48u8 + d) as char);
    assert(out@ =~= old(out)@ + decimal(n as nat));
}

fn push_str(out: &mut Vec<char>, s: &str)
    ensures
        final(out)@ == old(out)@ + s@,
{
    let cs = chars_of(s);
    let mut i: usize = 0;
    while i < cs.len()
        invariant
            i <= cs@.len(),
            cs@ == s@,
            out@ == old(out)@ + cs@.subrange(0, i as int),
        decreases cs@.len() - i,
    {
        out.push(cs[i]);
        i = i + 1;
        assert(out@ =~= old(out)@ + cs@.subrange(0, i as int));
    }
    assert(cs@.subrange(0, cs@.len() as int) =~= cs@);
}

/// The `Set-Cookie` value that hands `token` to a client for `max_age`
/// seconds: `session_token=<token>; Max-Age=<max_age>; Path=/; HttpOnly`,
/// then `; Secure` and `; SameSite=<value>` as the policy asks.
pub fn set_cookie(policy: &SessionCookiePolicy, token: &str, max_age: u64) -> (r: String)
    ensures
        r@ == set_cookie_text(*policy, token@, max_age),
{
    let mut out: Vec<char> = Vec::new();
    push_str(&mut out, "session_token=");
    proof {
        reveal_strlit("session_token=");
        assert("session_token="@ =~= token_key());
    }
    push_str(&mut out, token);
    push_str(&mut out, "; Max-Age=");
    push_decimal(&mut out, max_age);
    push_str(&mut out, "; Path=/; HttpOnly");
    if policy.secure {
        push_str(&mut out, "; Secure");
    }
    match policy.same_site {
        Some(s) => {
            push_str(&mut out, "; SameSite=");
            match s {
                SameSite::Strict => push_str(&mut out, "Strict"),
                SameSite::Lax => push_str(&mut out, "Lax"),
                SameSite::CrossSite => push_str(&mut out, "None"),
            }
        },
        None => {},
    }
    assert(out@ =~= set_cookie_text(*policy, token@, max_age));
    string_of(&out)
}

/// The `Set-Cookie` value that tells a client to drop its session cookie.
pub fn clear_cookie(policy: &SessionCookiePolicy) -> (r: String)
    ensures
        r@ == set_cookie_text(*policy, Seq::empty(), 0),
{
    let r = set_cookie(policy, "", 0);
    proof {
        reveal_strlit("");
    }
    r
}

} // verus!
