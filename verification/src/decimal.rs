//! Exact decimal quantities.
//!
//! Energy counters and the other metered quantities are decimal numerals
//! with at most three fractional digits (`NNNNNN.NNN`).  They are held
//! exactly, as a signed count of thousandths, rather than approximately in
//! a floating-point number.

use vstd::prelude::*;

verus! {

/// A decimal quantity, held exactly as a count of thousandths of a unit.
#[derive(Clone, Copy, PartialEq, Eq, Structural, Debug)]
pub struct DecimalValue {
    pub milli: i64,
}

/// The largest whole part a token may have: any more and even `whole * 1000`
/// exceeds `i64::MAX`.
pub const WHOLE_CAP: u64 = 9223372036854775;

pub open spec fn is_ascii_digit(c: char) -> bool {
    48 <= c as int <= 57
}

pub open spec fn digit_value(c: char) -> int {
    c as int - 48
}

/// The value of a sequence of decimal digits, most significant first.
pub open spec fn digits_value(s: Seq<char>) -> int
    decreases s.len(),
{
    if s.len() == 0 {
        0
    } else {
        10 * digits_value(s.drop_last()) + digit_value(s.last())
    }
}

pub open spec fn pow10(n: nat) -> int
    decreases n,
{
    if n == 0 {
        1
    } else {
        10 * pow10((n - 1) as nat)
    }
}

/// The first position at or after `i` that does not hold a digit
/// (`s.len()` when every later position does).
pub open spec fn int_end(s: Seq<char>, i: int) -> int
    decreases s.len() - i
        when 0 <= i <= s.len()
{
    if i >= s.len() {
        s.len() as int
    } else if !is_ascii_digit(s[i]) {
        i
    } else {
        int_end(s, i + 1)
    }
}

/// An unsigned decimal numeral: one or more digits, optionally followed by
/// a point and one to three fractional digits.
pub open spec fn unsigned_token_ok(s: Seq<char>) -> bool {
    let d = int_end(s, 0);
    &&& d >= 1
    &&& (d == s.len() || {
        &&& s[d] == '.'
        &&& 1 <= s.len() - d - 1 <= 3
        &&& (forall|i: int| d < i < s.len() ==> is_ascii_digit(s[i]))
    })
}

/// What one fractional digit is worth, in thousandths, for a fraction of
/// the given length.
pub open spec fn frac_scale(len: int) -> int {
    if len == 1 {
        100
    } else if len == 2 {
        10
    } else {
        1
    }
}

/// The value of an unsigned numeral, in thousandths.
pub open spec fn unsigned_milli(s: Seq<char>) -> int {
    let d = int_end(s, 0);
    if d == s.len() {
        1000 * digits_value(s.subrange(0, d))
    } else {
        1000 * digits_value(s.subrange(0, d)) + frac_scale(s.len() - d - 1) * digits_value(
            s.subrange(d + 1, s.len() as int),
        )
    }
}

/// A valid token: an optionally negated unsigned numeral whose value, in
/// thousandths, fits the machine representation.
pub open spec fn token_ok(s: Seq<char>) -> bool {
    if s.len() > 0 && s[0] == '-' {
        unsigned_token_ok(s.skip(1)) && unsigned_milli(s.skip(1)) <= i64::MAX
    } else {
        unsigned_token_ok(s) && unsigned_milli(s) <= i64::MAX
    }
}

/// The value a valid token denotes, in thousandths.
pub open spec fn token_milli(s: Seq<char>) -> int {
    if s.len() > 0 && s[0] == '-' {
        -unsigned_milli(s.skip(1))
    } else {
        unsigned_milli(s)
    }
}

pub proof fn lemma_int_end(s: Seq<char>, i: int)
    requires
        0 <= i <= s.len(),
    ensures
        i <= int_end(s, i) <= s.len(),
        forall|k: int| i <= k < int_end(s, i) ==> is_ascii_digit(s[k]),
        int_end(s, i) < s.len() ==> !is_ascii_digit(s[int_end(s, i)]),
    decreases s.len() - i,
{
    if i < s.len() && is_ascii_digit(s[i]) {
        lemma_int_end(s, i + 1);
    }
}

pub proof fn lemma_digits_value_bounds(s: Seq<char>)
    requires
        forall|i: int| 0 <= i < s.len() ==> is_ascii_digit(s[i]),
    ensures
        0 <= digits_value(s) < pow10(s.len()),
    decreases s.len(),
{
    if s.len() > 0 {
        assert(forall|i: int| 0 <= i < s.drop_last().len() ==> is_ascii_digit(s.drop_last()[i]));
        lemma_digits_value_bounds(s.drop_last());
    }
}

proof fn lemma_int_end_shift(s: Seq<char>, t: Seq<char>, i: int)
    requires
        t.len() == s.len() + 1,
        forall|k: int| 0 <= k < s.len() ==> t[k + 1] == s[k],
        0 <= i <= s.len(),
    ensures
        int_end(t, i + 1) == int_end(s, i) + 1,
    decreases s.len() - i,
{
    if i < s.len() && is_ascii_digit(s[i]) {
        lemma_int_end_shift(s, t, i + 1);
    }
}

proof fn lemma_digits_prepend_zero(s: Seq<char>)
    ensures
        digits_value(seq!['0'] + s) == digits_value(s),
    decreases s.len(),
{
    let t = seq!['0'] + s;
    if s.len() == 0 {
        assert(t =~= seq!['0']);
        assert(t.drop_last() =~= Seq::<char>::empty());
        assert(digits_value(Seq::<char>::empty()) == 0);
        assert(digits_value(t) == 10 * digits_value(t.drop_last()) + digit_value(t.last()));
        assert(digit_value('0') == 0);
    } else {
        assert(t.drop_last() =~= seq!['0'] + s.drop_last());
        assert(t.last() == s.last());
        lemma_digits_prepend_zero(s.drop_last());
    }
}

/// Leading zeros are insignificant: prepending a `'0'` to a well-formed
/// unsigned numeral leaves it well-formed and leaves its value unchanged.
pub proof fn lemma_leading_zero_insignificant(s: Seq<char>)
    requires
        unsigned_token_ok(s),
    ensures
        unsigned_token_ok(seq!['0'] + s),
        unsigned_milli(seq!['0'] + s) == unsigned_milli(s),
{
    let t = seq!['0'] + s;
    let d = int_end(s, 0);
    lemma_int_end(s, 0);
    lemma_int_end_shift(s, t, 0);
    assert(is_ascii_digit(t[0]));
    assert(int_end(t, 0) == int_end(t, 1));
    assert(t.subrange(0, d + 1) =~= seq!['0'] + s.subrange(0, d));
    lemma_digits_prepend_zero(s.subrange(0, d));
    if d < s.len() {
        assert(t.subrange(d + 2, t.len() as int) =~= s.subrange(d + 1, s.len() as int));
    }
}

/// The same, for a whole token that does not start with a minus sign: a
/// numeral with extra leading zeros parses to the same value.
pub proof fn lemma_token_leading_zero(s: Seq<char>)
    requires
        token_ok(s),
        s.len() == 0 || s[0] != '-',
    ensures
        token_ok(seq!['0'] + s),
        token_milli(seq!['0'] + s) == token_milli(s),
{
    lemma_leading_zero_insignificant(s);
}

fn char_digit(c: char) -> (r: Option<u8>)
    ensures
        r is Some <==> is_ascii_digit(c),
        r matches Some(d) ==> d == digit_value(c),
{
    let u = c as u32;
    if 48 <= u && u <= 57 {
        Some((u - 48) as u8)
    } else {
        None
    }
}

/// Finds the end of the run of digits that starts at `from`.
pub(crate) fn scan_digits(s: &str, from: usize) -> (r: usize)
    requires
        from <= s@.len(),
    ensures
        r == int_end(s@, from as int),
        from <= r <= s@.len(),
{
    let n = s.unicode_len();
    let mut j = from;
    while j < n
        invariant
            from <= j <= n,
            n == s@.len(),
            int_end(s@, from as int) == int_end(s@, j as int),
        decreases n - j,
    {
        let c = s.get_char(j);
        if char_digit(c).is_none() {
            return j;
        }
        j = j + 1;
    }
    j
}

/// The value of the digits in `s[from..to]`, capped: when the second
/// component is true the digits denote more than `cap`.
pub(crate) fn digits_to_value(s: &str, from: usize, to: usize, cap: u64) -> (r: (u64, bool))
    requires
        from <= to <= s@.len(),
        cap >= 9,
        forall|k: int| from <= k < to ==> is_ascii_digit(s@[k]),
    ensures
        !r.1 ==> r.0 == digits_value(s@.subrange(from as int, to as int)) && r.0 <= cap,
        r.1 ==> digits_value(s@.subrange(from as int, to as int)) > cap,
{
    let mut acc: u64 = 0;
    let mut big = false;
    let mut j = from;
    proof {
        assert(s@.subrange(from as int, from as int) =~= Seq::<char>::empty());
    }
    while j < to
        invariant
            from <= j <= to <= s@.len(),
            cap >= 9,
            forall|k: int| from <= k < to ==> is_ascii_digit(s@[k]),
            !big ==> acc == digits_value(s@.subrange(from as int, j as int)) && acc <= cap,
            big ==> digits_value(s@.subrange(from as int, j as int)) > cap,
        decreases to - j,
    {
        let c = s.get_char(j);
        let dv = match char_digit(c) {
            Some(d) => d,
            None => {
                proof {
                    assert(is_ascii_digit(s@[j as int]));
                }
                0
            },
        };
        proof {
            assert(s@.subrange(from as int, j + 1).drop_last() =~= s@.subrange(
                from as int,
                j as int,
            ));
            assert(s@.subrange(from as int, j + 1).last() == s@[j as int]);
            lemma_digits_value_bounds(s@.subrange(from as int, j as int));
        }
        if big {
            // appending a digit cannot shrink the value
        } else {
            if acc > cap / 10 {
                proof {
                    assert(10 * (cap / 10) + cap % 10 == cap);
                    assert(10 * acc + (dv as int) > cap);
                }
                big = true;
            } else {
                let high = acc * 10;
                if (dv as u64) > cap - high {
                    big = true;
                } else {
                    acc = high + (dv as u64);
                }
            }
        }
        j = j + 1;
    }
    (acc, big)
}

/// Parses an unsigned numeral, yielding its value in thousandths when the
/// token is well-formed and the value representable.
fn parse_unsigned_body(b: &str) -> (r: Option<u64>)
    ensures
        r is Some <==> unsigned_token_ok(b@) && unsigned_milli(b@) <= i64::MAX,
        r matches Some(m) ==> m == unsigned_milli(b@),
{
    let n = b.unicode_len();
    let d = scan_digits(b, 0);
    proof {
        lemma_int_end(b@, 0);
    }
    if d == 0 {
        return None;
    }
    let (whole, big) = digits_to_value(b, 0, d, WHOLE_CAP);
    if d == n {
        if big {
            return None;
        }
        // whole <= WHOLE_CAP, so whole * 1000 stays below i64::MAX
        return Some(whole * 1000);
    }
    let c = b.get_char(d);
    if c != '.' {
        return None;
    }
    let flen = n - d - 1;
    if flen < 1 || flen > 3 {
        return None;
    }
    let f_end = scan_digits(b, d + 1);
    if f_end != n {
        proof {
            lemma_int_end(b@, d + 1);
            assert(!is_ascii_digit(b@[int_end(b@, d + 1)]));
        }
        return None;
    }
    proof {
        lemma_int_end(b@, d + 1);
    }
    if big {
        proof {
            lemma_digits_value_bounds(b@.subrange(d + 1, n as int));
            reveal_with_fuel(pow10, 4);
            assert(pow10(3) == 1000);
        }
        return None;
    }
    let (frac, frac_big) = digits_to_value(b, d + 1, n, WHOLE_CAP);
    let scale: u64 = if flen == 1 {
        100
    } else if flen == 2 {
        10
    } else {
        1
    };
    proof {
        lemma_digits_value_bounds(b@.subrange(d + 1, n as int));
        reveal_with_fuel(pow10, 4);
        assert(pow10(3) == 1000);
        assert(!frac_big);
        assert(frac_scale(n - d - 1) == scale as int);
    }
    let total = whole * 1000 + frac * scale;
    if total > i64::MAX as u64 {
        None
    } else {
        Some(total)
    }
}

/// Parses a decimal numeral token: an optional minus sign, one or more
/// digits, and optionally a point with one to three fractional digits.
/// Leading zeros carry no meaning.  Anything else — or a value too large to
/// represent — is rejected.
pub fn parse_decimal_token(s: &str) -> (r: Option<DecimalValue>)
    ensures
        r is Some <==> token_ok(s@),
        r matches Some(v) ==> v.milli == token_milli(s@),
{
    let n = s.unicode_len();
    let neg = n > 0 && s.get_char(0) == '-';
    let body = if neg {
        s.substring_char(1, n)
    } else {
        s
    };
    proof {
        if neg {
            assert(body@ =~= s@.skip(1));
        }
    }
    match parse_unsigned_body(body) {
        None => None,
        Some(m) => {
            if neg {
                Some(DecimalValue { milli: -(m as i64) })
            } else {
                Some(DecimalValue { milli: m as i64 })
            }
        },
    }
}

} // verus!
