//! Response status inspection: parsing the numeric `grpc-status` trailer
//! out of a header map. A missing trailer means success; an unreadable
//! one maps to the transport's "unknown" code.

use vstd::prelude::*;
use vstd::string::StrSliceExecFns;
use crate::headers::{Headers, HeadersView, header_first_value};

verus! {

/// An ASCII decimal digit.
pub open spec fn is_digit(c: char) -> bool {
    '0' <= c && c <= '9'
}

/// Numeric value of an ASCII decimal digit.
pub open spec fn digit_val(c: char) -> int {
    c as int - 48
}

/// Value of a digit string read in base ten.
pub open spec fn digits_val(s: Seq<char>) -> int
    decreases s.len(),
{
    if s.len() == 0 {
        0
    } else {
        digits_val(s.take(s.len() - 1)) * 10 + digit_val(s.last())
    }
}

/// Every character of the sequence is an ASCII decimal digit.
pub open spec fn all_digits(s: Seq<char>) -> bool {
    forall|i: int| 0 <= i < s.len() ==> is_digit(s[i])
}

/// The digit part of a decimal integer string: everything after an
/// optional leading sign.
pub open spec fn int_digits(s: Seq<char>) -> Seq<char> {
    if s.len() > 0 && (s[0] == '+' || s[0] == '-') {
        s.drop_first()
    } else {
        s
    }
}

/// The sign of a decimal integer string.
pub open spec fn int_sign(s: Seq<char>) -> int {
    if s.len() > 0 && s[0] == '-' {
        -1
    } else {
        1
    }
}

/// What `str::parse::<i32>` accepts: an optional sign followed by one or
/// more digits, valuing within the i32 range.
pub open spec fn parse_i32_spec(s: Seq<char>) -> Option<int> {
    if int_digits(s).len() == 0 || !all_digits(int_digits(s)) {
        None
    } else {
        if i32::MIN <= int_sign(s) * digits_val(int_digits(s)) <= i32::MAX {
            Some(int_sign(s) * digits_val(int_digits(s)))
        } else {
            None
        }
    }
}

/// A digit string never values negatively.
proof fn lemma_digits_val_nonneg(s: Seq<char>)
    requires
        forall|i: int| 0 <= i < s.len() ==> is_digit(s[i]),
    ensures
        digits_val(s) >= 0,
    decreases s.len(),
{
    if s.len() > 0 {
        lemma_digits_val_nonneg(s.take(s.len() - 1));
    }
}

/// Extending a digit string by one digit multiplies its value by ten and
/// adds the digit.
proof fn lemma_digits_val_step(s: Seq<char>, k: int)
    requires
        0 <= k < s.len(),
    ensures
        digits_val(s.take(k + 1)) == digits_val(s.take(k)) * 10 + digit_val(s[k]),
{
    assert(s.take(k + 1).take(k) =~= s.take(k));
    assert(s.take(k + 1).last() == s[k]);
}

/// A longer digit prefix never values less.
proof fn lemma_digits_val_monotone(s: Seq<char>, k: int)
    requires
        0 <= k <= s.len(),
        forall|i: int| 0 <= i < s.len() ==> is_digit(s[i]),
    ensures
        digits_val(s) >= digits_val(s.take(k)),
    decreases s.len() - k,
{
    if k < s.len() {
        lemma_digits_val_step(s, k);
        lemma_digits_val_nonneg(s.take(k));
        lemma_digits_val_monotone(s, k + 1);
    } else {
        assert(s.take(k) =~= s);
    }
}

/// Parses a decimal integer the way `str::parse::<i32>` reads it.
pub fn parse_i32(s: &str) -> (r: Option<i32>)
    ensures
        match r {
            Some(v) => parse_i32_spec(s@) == Some(v as int),
            None => parse_i32_spec(s@) is None,
        },
{
    let ghost sv = s@;
    let len = s.unicode_len();
    let mut start: usize = 0;
    let mut negative = false;
    if len > 0 {
        let c0 = s.get_char(0);
        if c0 == '+' || c0 == '-' {
            start = 1;
            negative = c0 == '-';
        }
    }
    let ghost digits = int_digits(sv);
    proof {
        assert forall|i: int| 0 <= i < digits.len() implies digits[i] == sv[i + start] by {}
    }
    if start >= len {
        return None;
    }
    // magnitude accumulates in i64; |i32::MIN| fits comfortably
    let mut mag: i64 = 0;
    let mut i: usize = start;
    while i < len
        invariant
            start <= i <= len,
            len == sv.len(),
            sv == s@,
            start == 0 || start == 1,
            start < len,
            (start == 1) == (sv.len() > 0 && (sv[0] == '+' || sv[0] == '-')),
            negative == (sv.len() > 0 && sv[0] == '-'),
            digits == int_digits(sv),
            forall|j: int| 0 <= j < i - start ==> is_digit(digits[j]),
            0 <= mag <= 0x8000_0000_0000i64,
            mag == digits_val(digits.take(i - start)),
        decreases len - i,
    {
        let c = s.get_char(i);
        if c < '0' || c > '9' {
            proof {
                assert(digits[i - start] == sv[i as int]);
                assert(!all_digits(int_digits(sv))) by {
                    assert(0 <= i - start < int_digits(sv).len());
                    assert(!is_digit(int_digits(sv)[i - start]));
                }
            }
            return None;
        }
        proof {
            assert(digits[i - start] == sv[i as int]);
            lemma_digits_val_step(digits, i - start);
        }
        if mag > 0x7FFF_FFFFi64 {
            // another digit follows a magnitude already beyond the i32
            // range, so the full value lies outside it for either sign
            proof {
                if all_digits(int_digits(sv)) {
                    lemma_digits_val_nonneg(digits.take(i - start));
                    lemma_digits_val_monotone(digits, i + 1 - start);
                    assert(digits_val(digits) >= digits_val(digits.take(i + 1 - start)));
                    assert(digits_val(digits.take(i + 1 - start)) == mag * 10 + digit_val(
                        digits[i - start],
                    ));
                }
            }
            return None;
        }
        let d: i64 = (c as u32 as i64) - 48;
        mag = mag * 10 + d;
        i = i + 1;
    }
    proof {
        assert(digits.take(digits.len() as int) =~= digits);
        assert(all_digits(int_digits(sv)));
        assert(mag == digits_val(digits));
    }
    if negative {
        if mag > 0x8000_0000i64 {
            return None;
        }
        Some((-mag) as i32)
    } else {
        if mag > 0x7FFF_FFFFi64 {
            return None;
        }
        Some(mag as i32)
    }
}

/// The transport status code borne by a header map: 0 (success) when no
/// `grpc-status` trailer is present, the trailer's value when it parses
/// to a known code, and 2 ("unknown") otherwise.
pub open spec fn grpc_status_of(h: HeadersView) -> int {
    match header_first_value(h, "grpc-status"@) {
        None => 0,
        Some(v) => match parse_i32_spec(v) {
            Some(code) => if 0 <= code <= 16 {
                code
            } else {
                2
            },
            None => 2,
        },
    }
}

/// Whether the header map signals a successful transport status.
pub open spec fn grpc_ok(h: HeadersView) -> bool {
    grpc_status_of(h) == 0
}

/// Returns grpc-status code from response headers; if the trailer is not
/// present the call is assumed successful.
pub fn http_headers_grpc_status(headers: &Headers) -> (code: i32)
    ensures
        code as int == grpc_status_of(headers@),
{
    match headers.get("grpc-status") {
        None => 0,
        Some(v) => match parse_i32(v.as_str()) {
            Some(code) => if 0 <= code && code <= 16 {
                code
            } else {
                2
            },
            None => 2,
        },
    }
}

} // verus!
