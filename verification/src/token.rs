//! The token codec: generation of random alphanumeric tokens and the
//! cookie-header syntax for carrying a named token.
//!
//! A cookie header is read as a list of `name=value` pairs delimited by
//! whitespace and semicolons; the value of the first pair whose name
//! matches (ASCII case-insensitively) is returned verbatim.

use vstd::prelude::*;
use vstd::string::StrSliceExecFns;
use rand::distr::SampleString;
use crate::headers::{Headers, HeadersView, header_first_value};
use crate::text::{eq_ignore_case, str_eq_ignore_case};

verus! {

/// An ASCII letter or digit.
pub open spec fn is_alphanumeric_char(c: char) -> bool {
    ('a' <= c && c <= 'z') || ('A' <= c && c <= 'Z') || ('0' <= c && c <= '9')
}

/// Every character of the sequence is an ASCII letter or digit.
pub open spec fn is_alphanumeric(s: Seq<char>) -> bool {
    forall|i: int| 0 <= i < s.len() ==> is_alphanumeric_char(s[i])
}

/// Relies on rand's `Alphanumeric` distribution: `sample_string` draws
/// exactly `length` characters, each uniformly from a-z, A-Z and 0-9.
#[verifier::external_body]
fn sample_alphanumeric(length: usize) -> (r: String)
    ensures
        r@.len() == length as nat,
        is_alphanumeric(r@),
{
    rand::distr::Alphanumeric.sample_string(&mut rand::rng(), length)
}

/// Generate and return a random alphanumeric string of length.
pub fn random_string(length: usize) -> (r: String)
    ensures
        r@.len() == length as nat,
        is_alphanumeric(r@),
{
    sample_alphanumeric(length)
}

/// A character that delimits entries of a cookie header.
pub open spec fn is_cookie_sep(c: char) -> bool {
    c == ' ' || c == '\t' || c == '\r' || c == '\n' || c == ';'
}

/// Length of the leading run of non-delimiter characters.
pub open spec fn token_len(s: Seq<char>) -> int
    decreases s.len(),
{
    if s.len() == 0 || is_cookie_sep(s[0]) {
        0
    } else {
        1 + token_len(s.drop_first())
    }
}

/// The leading token is never longer than the sequence, and non-empty
/// exactly when the sequence starts with a non-delimiter.
pub proof fn lemma_token_len_bounds(s: Seq<char>)
    ensures
        0 <= token_len(s) <= s.len(),
        s.len() > 0 && !is_cookie_sep(s[0]) ==> 1 <= token_len(s),
    decreases s.len(),
{
    if s.len() > 0 && !is_cookie_sep(s[0]) {
        lemma_token_len_bounds(s.drop_first());
    }
}

/// Position of the first `=` in the token, or its length when there is
/// none.
pub open spec fn eq_pos(t: Seq<char>) -> int
    decreases t.len(),
{
    if t.len() == 0 || t[0] == '=' {
        0
    } else {
        1 + eq_pos(t.drop_first())
    }
}

/// The `=` position is within the token, and marks an `=` when inside.
pub proof fn lemma_eq_pos_bounds(t: Seq<char>)
    ensures
        0 <= eq_pos(t) <= t.len(),
        eq_pos(t) < t.len() ==> t[eq_pos(t)] == '=',
        forall|k: int| 0 <= k < eq_pos(t) ==> t[k] != '=',
    decreases t.len(),
{
    if t.len() > 0 && t[0] != '=' {
        lemma_eq_pos_bounds(t.drop_first());
        assert forall|k: int| 0 <= k < eq_pos(t) implies t[k] != '=' by {
            if k > 0 {
                assert(t.drop_first()[k - 1] == t[k]);
            }
        }
    }
}

/// The `name=value` split of one token: name before the first `=`, value
/// after it, verbatim; nothing when the token has no `=` or an empty
/// name.
pub open spec fn pair_of(t: Seq<char>) -> Option<(Seq<char>, Seq<char>)> {
    let e = eq_pos(t);
    if 0 < e < t.len() {
        Some((t.take(e), t.skip(e + 1)))
    } else {
        None
    }
}

/// The value of one token if it is a pair named `name` (ASCII
/// case-insensitively), and nothing otherwise.
pub open spec fn pair_match(t: Seq<char>, name: Seq<char>) -> Option<Seq<char>> {
    match pair_of(t) {
        Some(p) => if eq_ignore_case(p.0, name) {
            Some(p.1)
        } else {
            None
        },
        None => None,
    }
}

/// The value of the first cookie named `name` in a raw cookie header.
pub open spec fn find_cookie(s: Seq<char>, name: Seq<char>) -> Option<Seq<char>>
    decreases s.len(),
    via find_cookie_dec
{
    if s.len() == 0 {
        None
    } else if is_cookie_sep(s[0]) {
        find_cookie(s.drop_first(), name)
    } else {
        match pair_match(s.take(token_len(s)), name) {
            Some(v) => Some(v),
            None => find_cookie(s.skip(token_len(s)), name),
        }
    }
}

#[via_fn]
proof fn find_cookie_dec(s: Seq<char>, name: Seq<char>) {
    lemma_token_len_bounds(s);
}

/// A leading delimiter does not change the scan.
proof fn lemma_find_cookie_sep_step(s: Seq<char>, name: Seq<char>, i: int)
    requires
        0 <= i < s.len(),
        is_cookie_sep(s[i]),
    ensures
        find_cookie(s.skip(i), name) == find_cookie(s.skip(i + 1), name),
{
    assert(s.skip(i)[0] == s[i]);
    assert(s.skip(i).drop_first() =~= s.skip(i + 1));
}

/// One more leading non-delimiter character extends the leading token.
proof fn lemma_token_len_step(s: Seq<char>, j: int)
    requires
        0 <= j < s.len(),
        !is_cookie_sep(s[j]),
    ensures
        token_len(s.skip(j)) == 1 + token_len(s.skip(j + 1)),
{
    assert(s.skip(j)[0] == s[j]);
    assert(s.skip(j).drop_first() =~= s.skip(j + 1));
}

/// One more leading non-`=` character moves the first `=` position.
proof fn lemma_eq_pos_step(t: Seq<char>, e: int)
    requires
        0 <= e < t.len(),
        t[e] != '=',
    ensures
        eq_pos(t.skip(e)) == 1 + eq_pos(t.skip(e + 1)),
{
    assert(t.skip(e)[0] == t[e]);
    assert(t.skip(e).drop_first() =~= t.skip(e + 1));
}

/// Whether the character delimits entries of a cookie header.
fn is_sep_char(c: char) -> (r: bool)
    ensures
        r == is_cookie_sep(c),
{
    c == ' ' || c == '\t' || c == '\r' || c == '\n' || c == ';'
}

/// Returns the value of the pair `name=value` that this token forms, if
/// its name matches `name` ASCII case-insensitively.
fn match_pair(t: &str, name: &str) -> (r: Option<String>)
    ensures
        match r {
            Some(v) => pair_match(t@, name@) == Some(v@),
            None => pair_match(t@, name@) is None,
        },
{
    let ghost tv = t@;
    let len = t.unicode_len();
    let mut e: usize = 0;
    proof {
        assert(tv.skip(0) =~= tv);
    }
    while e < len && t.get_char(e) != '='
        invariant
            0 <= e <= len,
            len == tv.len(),
            tv == t@,
            eq_pos(tv) == e + eq_pos(tv.skip(e as int)),
        decreases len - e,
    {
        proof {
            lemma_eq_pos_step(tv, e as int);
        }
        e = e + 1;
    }
    proof {
        if e < len {
            assert(tv.skip(e as int)[0] == tv[e as int]);
        } else {
            assert(tv.skip(e as int) =~= Seq::<char>::empty());
        }
        assert(eq_pos(tv) == e as int);
    }
    if e == 0 || e >= len {
        return None;
    }
    let name_part = t.substring_char(0, e);
    let value_part = t.substring_char(e + 1, len);
    proof {
        assert(name_part@ =~= tv.take(e as int));
        assert(value_part@ =~= tv.skip(e as int + 1));
    }
    if str_eq_ignore_case(name_part, name) {
        Some(value_part.to_owned())
    } else {
        None
    }
}

/// Scans a raw cookie header for a cookie named `name` and returns the
/// first match's value verbatim.
pub fn find_cookie_value(header: &str, name: &str) -> (r: Option<String>)
    ensures
        match r {
            Some(v) => find_cookie(header@, name@) == Some(v@),
            None => find_cookie(header@, name@) is None,
        },
{
    let ghost s = header@;
    let len = header.unicode_len();
    let mut i: usize = 0;
    proof {
        assert(s.skip(0) =~= s);
    }
    while i < len
        invariant
            0 <= i <= len,
            len == s.len(),
            s == header@,
            find_cookie(s, name@) == find_cookie(s.skip(i as int), name@),
        decreases len - i,
    {
        let c = header.get_char(i);
        if is_sep_char(c) {
            proof {
                lemma_find_cookie_sep_step(s, name@, i as int);
            }
            i = i + 1;
        } else {
            // scan to the end of the current token
            let mut j: usize = i;
            while j < len && !is_sep_char(header.get_char(j))
                invariant
                    i <= j <= len,
                    len == s.len(),
                    s == header@,
                    token_len(s.skip(i as int)) == j - i + token_len(s.skip(j as int)),
                decreases len - j,
            {
                proof {
                    lemma_token_len_step(s, j as int);
                }
                j = j + 1;
            }
            proof {
                if j < len {
                    assert(s.skip(j as int)[0] == s[j as int]);
                } else {
                    assert(s.skip(j as int) =~= Seq::<char>::empty());
                }
                assert(token_len(s.skip(i as int)) == j - i);
            }
            let t = header.substring_char(i, j);
            proof {
                assert(t@ =~= s.skip(i as int).take(token_len(s.skip(i as int))));
                assert(s.skip(i as int)[0] == s[i as int]);
                assert(s.skip(i as int).skip(token_len(s.skip(i as int))) =~= s.skip(j as int));
            }
            match match_pair(t, name) {
                Some(v) => {
                    return Some(v);
                },
                None => {
                    i = j;
                },
            }
        }
    }
    proof {
        assert(s.skip(len as int) =~= Seq::<char>::empty());
    }
    None
}

/// The token carried in the named cookie of a header map's first cookie
/// header, if any.
pub open spec fn cookie_token_of(h: HeadersView, name: Seq<char>) -> Option<Seq<char>> {
    match header_first_value(h, "cookie"@) {
        Some(hdr) => find_cookie(hdr, name),
        None => None,
    }
}

/// Get cookie of name from headers and return value as string option.
pub fn cookie_value(headers: &Headers, cookie_name: &str) -> (r: Option<String>)
    ensures
        match r {
            Some(v) => cookie_token_of(headers@, cookie_name@) == Some(v@),
            None => cookie_token_of(headers@, cookie_name@) is None,
        },
{
    match headers.get("cookie") {
        Some(header) => find_cookie_value(header.as_str(), cookie_name),
        None => None,
    }
}

} // verus!
