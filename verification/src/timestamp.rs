//! Calendar timestamps reconstructed from the meter's two-digit-year
//! `YYMMDDhhmmss` tokens.
//!
//! A token carries a trailing daylight flag (`S` or `W`).  The flag is
//! validated for well-formedness but deliberately never used to pick an
//! offset: every timestamp is taken at UTC, exactly as the meter readings
//! are stored downstream.

use crate::decimal::digit_value;
use crate::decimal::is_ascii_digit;
use vstd::prelude::*;

verus! {

/// A calendar instant at UTC: no offset is applied or recorded.
#[derive(Clone, Copy, PartialEq, Eq, Structural, Debug)]
pub struct Timestamp {
    pub year: u16,
    pub month: u8,
    pub day: u8,
    pub hour: u8,
    pub minute: u8,
    pub second: u8,
}

pub open spec fn is_leap_year(y: int) -> bool {
    (y % 4 == 0 && y % 100 != 0) || y % 400 == 0
}

pub open spec fn days_in_month(y: int, m: int) -> int {
    if m == 2 {
        if is_leap_year(y) {
            29
        } else {
            28
        }
    } else if m == 4 || m == 6 || m == 9 || m == 11 {
        30
    } else {
        31
    }
}

/// A well-formed timestamp: within the two-digit-year century and
/// calendar-valid in every component.
pub open spec fn timestamp_wf(t: Timestamp) -> bool {
    &&& 2000 <= t.year <= 2099
    &&& 1 <= t.month <= 12
    &&& 1 <= t.day <= days_in_month(t.year as int, t.month as int)
    &&& t.hour <= 23
    &&& t.minute <= 59
    &&& t.second <= 59
}

/// The shape gate: exactly 13 characters, the last being a daylight flag.
/// A token failing this gate is not a timestamp token at all.
pub open spec fn token_shape_ok(t: Seq<char>) -> bool {
    t.len() == 13 && (t[12] == 'S' || t[12] == 'W')
}

pub open spec fn token_digits_ok(t: Seq<char>) -> bool {
    forall|i: int| 0 <= i < 12 ==> is_ascii_digit(t[i])
}

/// The value of the two digits at positions `i` and `i + 1`.
pub open spec fn pair_value(t: Seq<char>, i: int) -> int {
    10 * digit_value(t[i]) + digit_value(t[i + 1])
}

/// Every decoded component lies in its calendar-valid range.
pub open spec fn token_in_range(t: Seq<char>) -> bool {
    &&& 1 <= pair_value(t, 2) <= 12
    &&& 1 <= pair_value(t, 4) <= days_in_month(2000 + pair_value(t, 0), pair_value(t, 2))
    &&& pair_value(t, 6) <= 23
    &&& pair_value(t, 8) <= 59
    &&& pair_value(t, 10) <= 59
}

/// The timestamp a valid token decodes to: two-digit year added to 2000,
/// then month, day, hour, minute, second.
pub open spec fn token_timestamp(t: Seq<char>) -> Timestamp {
    Timestamp {
        year: (2000 + pair_value(t, 0)) as u16,
        month: pair_value(t, 2) as u8,
        day: pair_value(t, 4) as u8,
        hour: pair_value(t, 6) as u8,
        minute: pair_value(t, 8) as u8,
        second: pair_value(t, 10) as u8,
    }
}

/// An accepted token decodes componentwise — year `2000 + YY`, and the
/// given month, day, hour, minute and second — to a well-formed timestamp.
pub proof fn lemma_accepted_token_components(t: Seq<char>)
    requires
        token_shape_ok(t),
        token_digits_ok(t),
        token_in_range(t),
    ensures
        ({
            let ts = token_timestamp(t);
            &&& ts.year == 2000 + pair_value(t, 0)
            &&& ts.month == pair_value(t, 2)
            &&& ts.day == pair_value(t, 4)
            &&& ts.hour == pair_value(t, 6)
            &&& ts.minute == pair_value(t, 8)
            &&& ts.second == pair_value(t, 10)
            &&& timestamp_wf(ts)
        }),
{
    assert(0 <= pair_value(t, 0) <= 99);
}

/// Which daylight flag a token ends in is immaterial: exchanging `S` for
/// `W` (or back) changes neither a token's acceptance nor the timestamp it
/// decodes to.
pub proof fn lemma_flag_choice_immaterial(t: Seq<char>, flag: char)
    requires
        token_shape_ok(t),
        flag == 'S' || flag == 'W',
    ensures
        ({
            let u = t.update(12, flag);
            &&& token_shape_ok(u)
            &&& token_digits_ok(u) == token_digits_ok(t)
            &&& token_digits_ok(t) ==> token_in_range(u) == token_in_range(t)
            &&& token_timestamp(u) == token_timestamp(t)
        }),
{
    let u = t.update(12, flag);
    assert(forall|i: int| 0 <= i < 12 ==> u[i] == t[i]);
}

/// The day count of a month, leap years included.
pub fn month_length(year: u16, month: u8) -> (r: u8)
    requires
        1 <= month <= 12,
    ensures
        r == days_in_month(year as int, month as int),
        28 <= r <= 31,
{
    if month == 2 {
        if (year % 4 == 0 && year % 100 != 0) || year % 400 == 0 {
            29
        } else {
            28
        }
    } else if month == 4 || month == 6 || month == 9 || month == 11 {
        30
    } else {
        31
    }
}

/// Reads the two digits at `i` and `i + 1`, or nothing when either
/// position does not hold a digit.
fn read_pair(tok: &str, i: usize) -> (r: Option<u8>)
    requires
        i <= 10,
        tok@.len() == 13,
    ensures
        r is Some <==> is_ascii_digit(tok@[i as int]) && is_ascii_digit(tok@[i + 1]),
        r matches Some(v) ==> v == pair_value(tok@, i as int),
{
    let hi = tok.get_char(i) as u32;
    let lo = tok.get_char(i + 1) as u32;
    if 48 <= hi && hi <= 57 && 48 <= lo && lo <= 57 {
        Some((10 * (hi - 48) + (lo - 48)) as u8)
    } else {
        None
    }
}

/// Decodes a token that passed the shape gate.  Yields the timestamp when
/// all twelve leading characters are digits and every component is
/// calendar-valid; yields nothing — the hard-error case — otherwise.
pub fn decode_timestamp_token(tok: &str) -> (r: Option<Timestamp>)
    requires
        token_shape_ok(tok@),
    ensures
        r is Some <==> token_digits_ok(tok@) && token_in_range(tok@),
        r matches Some(ts) ==> ts == token_timestamp(tok@) && timestamp_wf(ts),
{
    let yy = read_pair(tok, 0);
    let mm = read_pair(tok, 2);
    let dd = read_pair(tok, 4);
    let hh = read_pair(tok, 6);
    let mi = read_pair(tok, 8);
    let ss = read_pair(tok, 10);
    match (yy, mm, dd, hh, mi, ss) {
        (Some(yy), Some(mm), Some(dd), Some(hh), Some(mi), Some(ss)) => {
            assert(token_digits_ok(tok@));
            if 1 <= mm && mm <= 12 && 1 <= dd && dd <= month_length(2000 + yy as u16, mm) && hh
                <= 23 && mi <= 59 && ss <= 59 {
                proof {
                    lemma_accepted_token_components(tok@);
                }
                Some(
                    Timestamp {
                        year: 2000 + yy as u16,
                        month: mm,
                        day: dd,
                        hour: hh,
                        minute: mi,
                        second: ss,
                    },
                )
            } else {
                None
            }
        },
        _ => None,
    }
}

} // verus!
