//! Account keys derived from validated email addresses.
//!
//! Addresses reach the library already checked and normalised by the
//! caller's email validator. Accounts are keyed by that address with every
//! ASCII letter lower-cased, so that two spellings that differ only in the
//! case of their letters name the same account.
use crate::text::{chars_of, is_ascii_upper, string_of};
use vstd::prelude::*;

verus! {

pub open spec fn lower_char(c: char) -> char {
    if is_ascii_upper(c) {
        ((c as u32) + 32) as char
    } else {
        c
    }
}

/// The account key of a validated address.
pub open spec fn fold_case(s: Seq<char>) -> Seq<char> {
    s.map_values(|c: char| lower_char(c))
}

/// `a` and `b` differ at most in the case of ASCII letters.
pub open spec fn same_but_case(a: Seq<char>, b: Seq<char>) -> bool {
    a.len() == b.len() && forall|i: int| 0 <= i < a.len() ==> lower_char(#[trigger] a[i]) == lower_char(b[i])
}

/// Addresses that differ only in the case of ASCII letters share one key.
pub proof fn lemma_same_key(a: Seq<char>, b: Seq<char>)
    requires
        same_but_case(a, b),
    ensures
        fold_case(a) == fold_case(b),
{
    assert(fold_case(a) =~= fold_case(b));
}

fn lower(c: char) -> (r: char)
    ensures
        r == lower_char(c),
{
    if 'A' <= c && c <= 'Z' {
        ((c as u8) + 32) as char
    } else {
        c
    }
}

/// The account key of `email`: the address with ASCII letters lower-cased.
pub fn account_key(email: &str) -> (r: String)
    ensures
        r@ == fold_case(email@),
{
    let t = chars_of(email);
    let n = t.len();
    let mut out: Vec<char> = Vec::new();
    let mut j: usize = 0;
    while j < n
        invariant
            j <= n == t@.len(),
            t@ == email@,
            out@ == fold_case(t@).subrange(0, j as int),
        decreases n - j,
    {
        out.push(lower(t[j]));
        j = j + 1;
        assert(out@ =~= fold_case(t@).subrange(0, j as int));
    }
    assert(out@ =~= fold_case(t@));
    string_of(&out)
}

} // verus!
