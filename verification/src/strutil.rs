//! Executable string helpers, each proved against the spec-level token
//! grammar: character-wise equality, dash detection, and the long, short and
//! inline flag forms.

use vstd::prelude::*;
use vstd::string::StrSliceExecFns;
use vstd::string::StringExecFns;
use crate::flag::long_form;
use crate::flag::short_form;
use crate::flag::is_inline_form;
use crate::flag::inline_value;

verus! {

/// Whether a token begins with `-`.
pub open spec fn starts_dash(t: Seq<char>) -> bool {
    t.len() > 0 && t[0] == '-'
}

/// Character-wise string equality.
pub fn str_eq(a: &str, b: &str) -> (r: bool)
    ensures
        r == (a@ == b@),
{
    let alen = a.unicode_len();
    let blen = b.unicode_len();
    if alen != blen {
        return false;
    }
    let mut i: usize = 0;
    while i < alen
        invariant
            alen == a@.len(),
            blen == b@.len(),
            alen == blen,
            i <= alen,
            forall|j: int| 0 <= j < i ==> a@[j] == b@[j],
        decreases alen - i,
    {
        if a.get_char(i) != b.get_char(i) {
            return false;
        }
        i += 1;
    }
    proof {
        assert(a@ =~= b@);
    }
    true
}

/// Whether a token begins with `-`.
pub fn is_dash_token(t: &str) -> (r: bool)
    ensures
        r == starts_dash(t@),
{
    if t.unicode_len() == 0 {
        false
    } else {
        t.get_char(0) == '-'
    }
}

/// The long form `--name` as an owned string.
pub fn make_long(name: &str) -> (r: String)
    ensures
        r@ == long_form(name@),
{
    let mut s = String::from_str("--");
    s.append(name);
    proof {
        reveal_strlit("--");
        assert(s@ =~= long_form(name@));
    }
    s
}

/// The short form `-alias` as an owned string.
pub fn make_short(alias: &str) -> (r: String)
    ensures
        r@ == short_form(alias@),
{
    let mut s = String::from_str("-");
    s.append(alias);
    proof {
        reveal_strlit("-");
        assert(s@ =~= short_form(alias@));
    }
    s
}

/// Whether a token is the inline form `--name=value`.
pub fn is_inline_token(t: &str, name: &str) -> (r: bool)
    ensures
        r == is_inline_form(t@, name@),
{
    let tlen = t.unicode_len();
    let nlen = name.unicode_len();
    if tlen < 3 || nlen > tlen - 3 {
        return false;
    }
    let prefix = t.substring_char(0, nlen + 2);
    let long = make_long(name);
    if !str_eq(prefix, long.as_str()) {
        return false;
    }
    t.get_char(nlen + 2) == '='
}

/// The value carried by an inline token `--name=value`.
pub fn inline_token_value(t: &str, name: &str) -> (r: String)
    requires
        is_inline_form(t@, name@),
    ensures
        r@ == inline_value(t@, name@),
{
    let tlen = t.unicode_len();
    let nlen = name.unicode_len();
    t.substring_char(nlen + 3, tlen).to_owned()
}

} // verus!
