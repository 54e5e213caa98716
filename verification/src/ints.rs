//! Verified parsing of integer numerals, with the grammar the standard
//! integer parsers accept: an optional sign, then one or more digits, and
//! a value that fits the target type.

use crate::decimal::digits_to_value;
use crate::decimal::digits_value;
use crate::decimal::int_end;
use crate::decimal::is_ascii_digit;
use crate::decimal::lemma_int_end;
use vstd::prelude::*;

verus! {

/// The magnitude of `i64::MIN`, the largest magnitude a negative numeral
/// may have.
pub const I64_MIN_MAGNITUDE: u64 = 9223372036854775808;

/// A numeral with its sign removed.
pub open spec fn signed_body(s: Seq<char>) -> Seq<char> {
    if s.len() > 0 && (s[0] == '+' || s[0] == '-') {
        s.skip(1)
    } else {
        s
    }
}

pub open spec fn body_all_digits(b: Seq<char>) -> bool {
    b.len() > 0 && (forall|i: int| 0 <= i < b.len() ==> is_ascii_digit(b[i]))
}

/// A well-formed `i64` numeral: `+`/`-` optional, digits, value in range.
pub open spec fn i64_token_ok(s: Seq<char>) -> bool {
    let b = signed_body(s);
    &&& body_all_digits(b)
    &&& if s.len() > 0 && s[0] == '-' {
        digits_value(b) <= I64_MIN_MAGNITUDE
    } else {
        digits_value(b) <= i64::MAX
    }
}

/// The value an `i64` numeral denotes.
pub open spec fn i64_token_value(s: Seq<char>) -> int {
    if s.len() > 0 && s[0] == '-' {
        -digits_value(signed_body(s))
    } else {
        digits_value(signed_body(s))
    }
}

/// A well-formed `usize` numeral: `+` optional, digits, value in range.
pub open spec fn usize_token_ok(s: Seq<char>) -> bool {
    let b = if s.len() > 0 && s[0] == '+' {
        s.skip(1)
    } else {
        s
    };
    &&& (s.len() > 0 && s[0] == '-') == false
    &&& body_all_digits(b)
    &&& digits_value(b) <= usize::MAX
}

/// Scans the digit body that starts at `from` and yields its value, or
/// nothing when it is empty, contains a non-digit, or exceeds `cap`.
fn parse_digit_body(s: &str, from: usize, cap: u64) -> (r: Option<u64>)
    requires
        from <= s@.len(),
        cap >= 9,
    ensures
        ({
            let b = s@.skip(from as int);
            &&& r is Some <==> (body_all_digits(b) && digits_value(b) <= cap)
            &&& (r matches Some(m) ==> m == digits_value(b))
        }),
{
    let n = s.unicode_len();
    let d = crate::decimal::scan_digits(s, from);
    proof {
        lemma_int_end(s@, from as int);
    }
    if d != n || d == from {
        proof {
            let b = s@.skip(from as int);
            if d != n {
                assert(!is_ascii_digit(s@[int_end(s@, from as int)]));
                assert(b[int_end(s@, from as int) - from] == s@[int_end(s@, from as int)]);
            }
        }
        return None;
    }
    let (m, big) = digits_to_value(s, from, n, cap);
    proof {
        assert(s@.subrange(from as int, n as int) =~= s@.skip(from as int));
    }
    if big {
        None
    } else {
        Some(m)
    }
}

/// Parses an `i64` numeral, with the grammar and range the standard
/// parser accepts.
pub fn parse_i64(s: &str) -> (r: Option<i64>)
    ensures
        r is Some <==> i64_token_ok(s@),
        r matches Some(v) ==> v == i64_token_value(s@),
{
    let n = s.unicode_len();
    let mut neg = false;
    let mut from: usize = 0;
    if n > 0 {
        let c = s.get_char(0);
        if c == '-' {
            neg = true;
            from = 1;
        } else if c == '+' {
            from = 1;
        }
    }
    proof {
        if from == 1 {
            assert(signed_body(s@) =~= s@.skip(1));
        } else {
            assert(signed_body(s@) =~= s@.skip(0));
            assert(s@.skip(0) =~= s@);
        }
    }
    let cap: u64 = if neg {
        I64_MIN_MAGNITUDE
    } else {
        9223372036854775807
    };
    match parse_digit_body(s, from, cap) {
        None => None,
        Some(m) => {
            if neg {
                if m == I64_MIN_MAGNITUDE {
                    Some(i64::MIN)
                } else {
                    Some(-(m as i64))
                }
            } else {
                Some(m as i64)
            }
        },
    }
}

/// Parses a `usize` numeral, with the grammar and range the standard
/// parser accepts.
pub fn parse_usize(s: &str) -> (r: Option<usize>)
    ensures
        r is Some <==> usize_token_ok(s@),
        r matches Some(v) ==> v == digits_value(
            if s@.len() > 0 && s@[0] == '+' {
                s@.skip(1)
            } else {
                s@
            },
        ),
{
    let n = s.unicode_len();
    let mut from: usize = 0;
    if n > 0 {
        let c = s.get_char(0);
        if c == '-' {
            return None;
        }
        if c == '+' {
            from = 1;
        }
    }
    proof {
        if from == 0 {
            assert(s@.skip(0) =~= s@);
        }
    }
    let cap: u64 = usize::MAX as u64;
    match parse_digit_body(s, from, cap) {
        None => None,
        Some(m) => Some(m as usize),
    }
}

} // verus!
