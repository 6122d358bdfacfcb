//! Character and string helpers shared by the header, cookie and origin
//! logic: ASCII case folding and case-insensitive comparison.

use vstd::prelude::*;
use vstd::string::StrSliceExecFns;
use vstd::string::StringExecFns;

verus! {

/// Code point of a character after ASCII lower-casing: 'A'..='Z' map to
/// 'a'..='z', every other character is unchanged.
pub open spec fn lower_code(c: char) -> int {
    if 'A' <= c && c <= 'Z' {
        c as int + 32
    } else {
        c as int
    }
}

/// ASCII case-insensitive equality of two character sequences.
pub open spec fn eq_ignore_case(a: Seq<char>, b: Seq<char>) -> bool {
    &&& a.len() == b.len()
    &&& forall|i: int| 0 <= i < a.len() ==> lower_code(a[i]) == lower_code(b[i])
}

/// ASCII case-insensitive comparison of two strings.
pub fn str_eq_ignore_case(a: &str, b: &str) -> (r: bool)
    ensures
        r == eq_ignore_case(a@, b@),
{
    let a_len = a.unicode_len();
    let b_len = b.unicode_len();
    if a_len != b_len {
        return false;
    }
    let mut i: usize = 0;
    while i < a_len
        invariant
            i <= a_len,
            a_len == a@.len(),
            a@.len() == b@.len(),
            forall|j: int| 0 <= j < i ==> lower_code(a@[j]) == lower_code(b@[j]),
        decreases a_len - i,
    {
        let ca = a.get_char(i);
        let cb = b.get_char(i);
        let la: u32 = if 'A' <= ca && ca <= 'Z' {
            ca as u32 + 32
        } else {
            ca as u32
        };
        let lb: u32 = if 'A' <= cb && cb <= 'Z' {
            cb as u32 + 32
        } else {
            cb as u32
        };
        if la != lb {
            return false;
        }
        i = i + 1;
    }
    true
}

/// Exact, case-sensitive comparison of two strings.
pub fn str_eq(a: &str, b: &str) -> (r: bool)
    ensures
        r == (a@ == b@),
{
    let a_len = a.unicode_len();
    let b_len = b.unicode_len();
    if a_len != b_len {
        proof {
            assert(a@ != b@);
        }
        return false;
    }
    let mut i: usize = 0;
    while i < a_len
        invariant
            i <= a_len,
            a_len == a@.len(),
            a@.len() == b@.len(),
            forall|j: int| 0 <= j < i ==> a@[j] == b@[j],
        decreases a_len - i,
    {
        if a.get_char(i) != b.get_char(i) {
            return false;
        }
        i = i + 1;
    }
    proof {
        assert(a@ =~= b@);
    }
    true
}

/// The decimal digit character for a value below ten.
pub open spec fn digit_char(d: int) -> char {
    if d == 0 {
        '0'
    } else if d == 1 {
        '1'
    } else if d == 2 {
        '2'
    } else if d == 3 {
        '3'
    } else if d == 4 {
        '4'
    } else if d == 5 {
        '5'
    } else if d == 6 {
        '6'
    } else if d == 7 {
        '7'
    } else if d == 8 {
        '8'
    } else {
        '9'
    }
}

/// The decimal rendering of a non-negative integer, without leading
/// zeros.
pub open spec fn dec_str(n: int) -> Seq<char>
    recommends
        n >= 0,
    decreases n,
{
    if n < 10 {
        seq![digit_char(n)]
    } else {
        dec_str(n / 10).push(digit_char(n % 10))
    }
}

/// The decimal rendering of an integer: a minus sign before the digits
/// when it is negative.
pub open spec fn dec_str_signed(v: int) -> Seq<char> {
    if v < 0 {
        seq!['-'] + dec_str(-v)
    } else {
        dec_str(v)
    }
}

/// The one-character string for a digit value.
fn digit_str(d: u64) -> (r: &'static str)
    requires
        d < 10,
    ensures
        r@ == seq![digit_char(d as int)],
{
    proof {
        reveal_strlit("0");
        reveal_strlit("1");
        reveal_strlit("2");
        reveal_strlit("3");
        reveal_strlit("4");
        reveal_strlit("5");
        reveal_strlit("6");
        reveal_strlit("7");
        reveal_strlit("8");
        reveal_strlit("9");
    }
    let r = match d {
        0 => "0",
        1 => "1",
        2 => "2",
        3 => "3",
        4 => "4",
        5 => "5",
        6 => "6",
        7 => "7",
        8 => "8",
        _ => "9",
    };
    proof {
        assert(r@ =~= seq![digit_char(d as int)]);
    }
    r
}

/// Renders an unsigned integer in decimal.
pub fn u64_to_string(n: u64) -> (r: String)
    ensures
        r@ == dec_str(n as int),
    decreases n,
{
    let digit = digit_str(n % 10);
    if n < 10 {
        digit.to_owned()
    } else {
        let prefix = u64_to_string(n / 10);
        let r = prefix.concat(digit);
        proof {
            assert(dec_str((n / 10) as int).push(digit_char(n as int % 10)) =~= dec_str(
                (n / 10) as int,
            ) + seq![digit_char(n as int % 10)]);
        }
        r
    }
}

/// Renders a signed integer in decimal.
pub fn i64_to_string(v: i64) -> (r: String)
    ensures
        r@ == dec_str_signed(v as int),
{
    if v >= 0 {
        u64_to_string(v as u64)
    } else {
        let mag: u64 = if v == i64::MIN {
            9_223_372_036_854_775_808u64
        } else {
            (-v) as u64
        };
        let digits = u64_to_string(mag);
        let r = "-".to_owned().concat(digits.as_str());
        proof {
            reveal_strlit("-");
            assert("-"@ =~= seq!['-']);
        }
        r
    }
}

} // verus!
