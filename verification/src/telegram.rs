//! The telegram parser: recognizes five fixed-format data lines among
//! arbitrary surrounding text and assembles them, in a strict order, into
//! one validated reading.
//!
//! A line that does not match the shape expected next is silently skipped
//! (a soft mismatch).  A line that matches the expected shape but carries
//! an invalid inner token is a hard error and aborts the whole telegram.

use crate::decimal::token_milli;
use crate::decimal::token_ok;
use crate::decimal::DecimalValue;
use crate::extract::strip_ok;
use crate::extract::strip_prefix_and_suffix;
use crate::extract::stripped;
use crate::timestamp::timestamp_wf;
use crate::timestamp::token_digits_ok;
use crate::timestamp::token_in_range;
use crate::timestamp::token_shape_ok;
use crate::timestamp::token_timestamp;
use crate::timestamp::decode_timestamp_token;
use crate::timestamp::Timestamp;
use vstd::prelude::*;

verus! {

/// A hard parse error, carrying the offending inner token.
#[derive(Debug)]
pub enum ParseError {
    /// An energy line's anchors matched but its token is not a valid
    /// decimal numeral.
    InvalidNumber(String),
    /// A timestamp line's anchors, length and flag matched but a date or
    /// time component is out of range or calendar-impossible.
    InvalidCalendarField(String),
}

/// One fully assembled reading: a timestamp and four energy counters.
#[derive(Clone, Copy, PartialEq, Eq, Structural, Debug)]
pub struct CompleteP1Measurement {
    pub timestamp: Timestamp,
    pub peak_hour_consumption: DecimalValue,
    pub off_hour_consumption: DecimalValue,
    pub peak_hour_injection: DecimalValue,
    pub off_hour_injection: DecimalValue,
}

/// A reading under assembly.  Fields fill strictly in order — timestamp,
/// peak-hour consumption, off-hour consumption, peak-hour injection,
/// off-hour injection — and each variant holds exactly the fields legal at
/// its stage, so an out-of-order fill is not representable.
#[derive(Clone, Copy, PartialEq, Eq, Structural, Debug)]
pub enum PartialP1Measurement {
    AwaitingTimestamp,
    AwaitingPeakHourConsumption(Timestamp),
    AwaitingOffHourConsumption(Timestamp, DecimalValue),
    AwaitingPeakHourInjection(Timestamp, DecimalValue, DecimalValue),
    AwaitingOffHourInjection(Timestamp, DecimalValue, DecimalValue, DecimalValue),
    Complete(Timestamp, DecimalValue, DecimalValue, DecimalValue, DecimalValue),
}

pub open spec fn timestamp_prefix() -> Seq<char> {
    "0-0:1.0.0("@
}

pub open spec fn close_paren() -> Seq<char> {
    ")"@
}

pub open spec fn kwh_suffix() -> Seq<char> {
    "*kWh)"@
}

pub open spec fn peak_conso_prefix() -> Seq<char> {
    "1-0:1.8.1("@
}

pub open spec fn off_conso_prefix() -> Seq<char> {
    "1-0:1.8.2("@
}

pub open spec fn peak_inj_prefix() -> Seq<char> {
    "1-0:2.8.1("@
}

pub open spec fn off_inj_prefix() -> Seq<char> {
    "1-0:2.8.2("@
}

/// The reading held by a filled accumulator.
pub open spec fn spec_complete(p: PartialP1Measurement) -> CompleteP1Measurement {
    CompleteP1Measurement {
        timestamp: p->Complete_0,
        peak_hour_consumption: p->Complete_1,
        off_hour_consumption: p->Complete_2,
        peak_hour_injection: p->Complete_3,
        off_hour_injection: p->Complete_4,
    }
}

/// What one energy line means against one prefix: `None` is a hard error,
/// `Some(None)` a soft mismatch, `Some(Some(v))` a parsed value.
pub open spec fn spec_energy_outcome(line: Seq<char>, prefix: Seq<char>) -> Option<
    Option<DecimalValue>,
> {
    if !strip_ok(line, prefix, kwh_suffix()) {
        Some(None)
    } else {
        let tok = stripped(line, prefix, kwh_suffix());
        if token_ok(tok) {
            Some(Some(DecimalValue { milli: token_milli(tok) as i64 }))
        } else {
            None
        }
    }
}

/// What one timestamp line means: `None` is a hard error, `Some(None)` a
/// soft mismatch (no anchors, wrong length, or a flag outside `S`/`W`),
/// `Some(Some(ts))` a decoded timestamp.
pub open spec fn spec_timestamp_outcome(line: Seq<char>) -> Option<Option<Timestamp>> {
    if !strip_ok(line, timestamp_prefix(), close_paren()) {
        Some(None)
    } else {
        let tok = stripped(line, timestamp_prefix(), close_paren());
        if !token_shape_ok(tok) {
            Some(None)
        } else if token_digits_ok(tok) && token_in_range(tok) {
            Some(Some(token_timestamp(tok)))
        } else {
            None
        }
    }
}

/// One step of the accumulator: the line is matched against the shape of
/// the single next-unfilled field only.  `None` is a hard error.
pub open spec fn spec_step(p: PartialP1Measurement, line: Seq<char>) -> Option<
    PartialP1Measurement,
> {
    match p {
        PartialP1Measurement::AwaitingTimestamp => match spec_timestamp_outcome(line) {
            Option::None => Option::None,
            Option::Some(Option::None) => Some(p),
            Option::Some(Option::Some(ts)) => Some(
                PartialP1Measurement::AwaitingPeakHourConsumption(ts),
            ),
        },
        PartialP1Measurement::AwaitingPeakHourConsumption(ts) => match spec_energy_outcome(
            line,
            peak_conso_prefix(),
        ) {
            Option::None => Option::None,
            Option::Some(Option::None) => Some(p),
            Option::Some(Option::Some(v)) => Some(
                PartialP1Measurement::AwaitingOffHourConsumption(ts, v),
            ),
        },
        PartialP1Measurement::AwaitingOffHourConsumption(ts, pc) => match spec_energy_outcome(
            line,
            off_conso_prefix(),
        ) {
            Option::None => Option::None,
            Option::Some(Option::None) => Some(p),
            Option::Some(Option::Some(v)) => Some(
                PartialP1Measurement::AwaitingPeakHourInjection(ts, pc, v),
            ),
        },
        PartialP1Measurement::AwaitingPeakHourInjection(ts, pc, oc) => match spec_energy_outcome(
            line,
            peak_inj_prefix(),
        ) {
            Option::None => Option::None,
            Option::Some(Option::None) => Some(p),
            Option::Some(Option::Some(v)) => Some(
                PartialP1Measurement::AwaitingOffHourInjection(ts, pc, oc, v),
            ),
        },
        PartialP1Measurement::AwaitingOffHourInjection(ts, pc, oc, pi) => match spec_energy_outcome(
            line,
            off_inj_prefix(),
        ) {
            Option::None => Option::None,
            Option::Some(Option::None) => Some(p),
            Option::Some(Option::Some(v)) => Some(
                PartialP1Measurement::Complete(ts, pc, oc, pi, v),
            ),
        },
        PartialP1Measurement::Complete(_, _, _, _, _) => Some(p),
    }
}

/// Whether a hard error at this stage is a number error (an energy stage)
/// rather than a calendar error (the timestamp stage).
pub open spec fn spec_step_err_is_number(p: PartialP1Measurement) -> bool {
    !(p is AwaitingTimestamp)
}

/// The offending token reported when a step at this stage fails hard.
pub open spec fn spec_step_err_text(p: PartialP1Measurement, line: Seq<char>) -> Seq<char> {
    match p {
        PartialP1Measurement::AwaitingTimestamp => stripped(
            line,
            timestamp_prefix(),
            close_paren(),
        ),
        PartialP1Measurement::AwaitingPeakHourConsumption(_) => stripped(
            line,
            peak_conso_prefix(),
            kwh_suffix(),
        ),
        PartialP1Measurement::AwaitingOffHourConsumption(_, _) => stripped(
            line,
            off_conso_prefix(),
            kwh_suffix(),
        ),
        PartialP1Measurement::AwaitingPeakHourInjection(_, _, _) => stripped(
            line,
            peak_inj_prefix(),
            kwh_suffix(),
        ),
        PartialP1Measurement::AwaitingOffHourInjection(_, _, _, _) => stripped(
            line,
            off_inj_prefix(),
            kwh_suffix(),
        ),
        PartialP1Measurement::Complete(_, _, _, _, _) => Seq::empty(),
    }
}

/// Parses one energy line against the given prefix (the suffix is always
/// `*kWh)`).  A line whose anchors do not match is not this field — that is
/// no error — while a matching line with a malformed numeral is.
pub fn parse_kwh(line: &str, prefix: &str) -> (r: Result<Option<DecimalValue>, ParseError>)
    ensures
        spec_energy_outcome(line@, prefix@) matches Some(o) ==> (r matches Ok(ro) && ro == o),
        spec_energy_outcome(line@, prefix@) is None ==> (r matches Err(e) && e matches
            ParseError::InvalidNumber(t) && t@ == stripped(line@, prefix@, kwh_suffix())),
{
    match strip_prefix_and_suffix(line, prefix, "*kWh)") {
        Some(tok) => match crate::decimal::parse_decimal_token(tok.as_str()) {
            Some(v) => Ok(Some(v)),
            None => Err(ParseError::InvalidNumber(tok)),
        },
        None => Ok(None),
    }
}

/// Parses one timestamp line (`0-0:1.0.0(YYMMDDhhmmssX)`).  A missing
/// anchor, a wrong token length or a flag outside `S`/`W` is a soft
/// mismatch; a shaped token with a calendar-invalid component is a hard
/// error.
pub fn parse_date_time(line: &str) -> (r: Result<Option<Timestamp>, ParseError>)
    ensures
        spec_timestamp_outcome(line@) matches Some(o) ==> (r matches Ok(ro) && ro == o),
        spec_timestamp_outcome(line@) is None ==> (r matches Err(e) && e matches
            ParseError::InvalidCalendarField(t) && t@ == stripped(
            line@,
            timestamp_prefix(),
            close_paren(),
        )),
        r matches Ok(Some(ts)) ==> timestamp_wf(ts),
{
    match strip_prefix_and_suffix(line, "0-0:1.0.0(", ")") {
        Some(tok) => {
            let len = tok.as_str().unicode_len();
            if len != 13 {
                return Ok(None);
            }
            let flag = tok.as_str().get_char(12);
            if flag != 'S' && flag != 'W' {
                return Ok(None);
            }
            match decode_timestamp_token(tok.as_str()) {
                Some(ts) => Ok(Some(ts)),
                None => Err(ParseError::InvalidCalendarField(tok)),
            }
        },
        None => Ok(None),
    }
}

/// Fills the single next-unfilled field when the line matches its shape;
/// hands the accumulator back unchanged when it does not; aborts with a
/// hard error when the shape matches but the token is invalid.  Fields
/// already set are never re-examined or overwritten.
pub fn step_partial_p1_measurement(partial: PartialP1Measurement, line: &str) -> (r: Result<
    PartialP1Measurement,
    ParseError,
>)
    ensures
        spec_step(partial, line@) matches Some(q) ==> (r matches Ok(p2) && p2 == q),
        spec_step(partial, line@) is None ==> (r matches Err(e) && ({
            let t_spec = spec_step_err_text(partial, line@);
            if spec_step_err_is_number(partial) {
                e matches ParseError::InvalidNumber(t) && t@ == t_spec
            } else {
                e matches ParseError::InvalidCalendarField(t) && t@ == t_spec
            }
        })),
{
    match partial {
        PartialP1Measurement::AwaitingTimestamp => match parse_date_time(line) {
            Ok(Some(ts)) => Ok(PartialP1Measurement::AwaitingPeakHourConsumption(ts)),
            Ok(None) => Ok(partial),
            Err(e) => Err(e),
        },
        PartialP1Measurement::AwaitingPeakHourConsumption(ts) => match parse_kwh(
            line,
            "1-0:1.8.1(",
        ) {
            Ok(Some(v)) => Ok(PartialP1Measurement::AwaitingOffHourConsumption(ts, v)),
            Ok(None) => Ok(partial),
            Err(e) => Err(e),
        },
        PartialP1Measurement::AwaitingOffHourConsumption(ts, pc) => match parse_kwh(
            line,
            "1-0:1.8.2(",
        ) {
            Ok(Some(v)) => Ok(PartialP1Measurement::AwaitingPeakHourInjection(ts, pc, v)),
            Ok(None) => Ok(partial),
            Err(e) => Err(e),
        },
        PartialP1Measurement::AwaitingPeakHourInjection(ts, pc, oc) => match parse_kwh(
            line,
            "1-0:2.8.1(",
        ) {
            Ok(Some(v)) => Ok(PartialP1Measurement::AwaitingOffHourInjection(ts, pc, oc, v)),
            Ok(None) => Ok(partial),
            Err(e) => Err(e),
        },
        PartialP1Measurement::AwaitingOffHourInjection(ts, pc, oc, pi) => match parse_kwh(
            line,
            "1-0:2.8.2(",
        ) {
            Ok(Some(v)) => Ok(PartialP1Measurement::Complete(ts, pc, oc, pi, v)),
            Ok(None) => Ok(partial),
            Err(e) => Err(e),
        },
        PartialP1Measurement::Complete(_, _, _, _, _) => Ok(partial),
    }
}

/// Promotes a filled accumulator to a complete reading, or hands back the
/// accumulator unchanged when any field is still unset.
pub fn complete_p1_measurement(partial: PartialP1Measurement) -> (r: Result<
    CompleteP1Measurement,
    PartialP1Measurement,
>)
    ensures
        partial is Complete ==> (r matches Ok(m) && m == spec_complete(partial)),
        !(partial is Complete) ==> (r matches Err(q) && q == partial),
{
    match partial {
        PartialP1Measurement::Complete(ts, pc, oc, pi, oi) => Ok(
            CompleteP1Measurement {
                timestamp: ts,
                peak_hour_consumption: pc,
                off_hour_consumption: oc,
                peak_hour_injection: pi,
                off_hour_injection: oi,
            },
        ),
        _ => Err(partial),
    }
}

/// The outcome of driving the accumulator over a telegram's lines.
pub enum TelegramOutcome {
    /// The lines ran out before every field was set — a normal outcome.
    Incomplete,
    /// The first complete reading; lines after it play no part.
    Finished(CompleteP1Measurement),
    /// A hard error, with the offending token's text.
    Failed { invalid_number: bool, text: Seq<char> },
}

/// Folds `spec_step` over the lines from state `p`, stopping at the first
/// complete reading or the first hard error.
pub open spec fn spec_run(p: PartialP1Measurement, lines: Seq<Seq<char>>) -> TelegramOutcome
    decreases lines.len(),
{
    if lines.len() == 0 {
        TelegramOutcome::Incomplete
    } else {
        match spec_step(p, lines[0]) {
            Option::None => TelegramOutcome::Failed {
                invalid_number: spec_step_err_is_number(p),
                text: spec_step_err_text(p, lines[0]),
            },
            Option::Some(q) => if q is Complete {
                TelegramOutcome::Finished(spec_complete(q))
            } else {
                spec_run(q, lines.skip(1))
            },
        }
    }
}

/// The state the accumulator is left in when a run ends incomplete.
pub open spec fn spec_run_state(p: PartialP1Measurement, lines: Seq<Seq<char>>) -> PartialP1Measurement
    decreases lines.len(),
{
    if lines.len() == 0 {
        p
    } else {
        match spec_step(p, lines[0]) {
            Option::None => p,
            Option::Some(q) => if q is Complete {
                q
            } else {
                spec_run_state(q, lines.skip(1))
            },
        }
    }
}

/// Parses one telegram, given its ordered lines.  Yields the first
/// complete reading, or nothing when the lines run out with one or more
/// fields unset, or the first hard error — which discards all accumulated
/// state, however many lines remain.
pub fn parse_lines(lines: &Vec<String>) -> (r: Result<Option<CompleteP1Measurement>, ParseError>)
    ensures
        spec_run(PartialP1Measurement::AwaitingTimestamp, lines.deep_view())
            is Incomplete ==> r matches Ok(None),
        spec_run(PartialP1Measurement::AwaitingTimestamp, lines.deep_view()) matches
            TelegramOutcome::Finished(m) ==> (r matches Ok(Some(mm)) && mm == m),
        spec_run(PartialP1Measurement::AwaitingTimestamp, lines.deep_view()) matches
            TelegramOutcome::Failed { invalid_number, text } ==> (r matches Err(e) && (if invalid_number {
            e matches ParseError::InvalidNumber(t) && t@ == text
        } else {
            e matches ParseError::InvalidCalendarField(t) && t@ == text
        })),
{
    let ghost all = lines.deep_view();
    let mut partial = PartialP1Measurement::AwaitingTimestamp;
    let n = lines.len();
    let mut i: usize = 0;
    proof {
        assert(all.skip(0) =~= all);
    }
    while i < n
        invariant
            i <= n,
            n == lines@.len(),
            all == lines.deep_view(),
            !(partial is Complete),
            spec_run(PartialP1Measurement::AwaitingTimestamp, all) == spec_run(
                partial,
                all.skip(i as int),
            ),
        decreases n - i,
    {
        let line = &lines[i];
        proof {
            assert(all[i as int] == lines@[i as int]@);
            assert(all.skip(i as int)[0] == all[i as int]);
        }
        match step_partial_p1_measurement(partial, line.as_str()) {
            Err(e) => {
                return Err(e);
            },
            Ok(q) => {
                match complete_p1_measurement(q) {
                    Ok(m) => {
                        return Ok(Some(m));
                    },
                    Err(np) => {
                        partial = np;
                    },
                }
            },
        }
        proof {
            assert(all.skip(i as int).skip(1) =~= all.skip(i + 1));
        }
        i = i + 1;
    }
    Ok(None)
}

/// Leading zeros in an energy line are insignificant: padding a
/// non-negative numeral with a `'0'` changes neither whether the line is
/// accepted nor the value it parses to.
pub proof fn lemma_energy_leading_zero_insignificant(prefix: Seq<char>, tok: Seq<char>)
    requires
        token_ok(tok),
        tok.len() == 0 || tok[0] != '-',
    ensures
        spec_energy_outcome(prefix + (seq!['0'] + tok) + kwh_suffix(), prefix)
            == spec_energy_outcome(prefix + tok + kwh_suffix(), prefix),
{
    crate::extract::lemma_strip_roundtrip(prefix, tok, kwh_suffix());
    crate::extract::lemma_strip_roundtrip(prefix, seq!['0'] + tok, kwh_suffix());
    crate::decimal::lemma_token_leading_zero(tok);
}

/// Every calendar-valid 13-character token ending in `S` or `W` is
/// accepted: the assembled timestamp line decodes to the timestamp whose
/// year is `2000 + YY` and whose remaining components are the token's
/// month, day, hour, minute and second — with no offset, whichever
/// daylight flag the token carries.
pub proof fn lemma_valid_timestamp_line_accepted(tok: Seq<char>)
    requires
        token_shape_ok(tok),
        token_digits_ok(tok),
        token_in_range(tok),
    ensures
        spec_timestamp_outcome(timestamp_prefix() + tok + close_paren()) == Some(
            Some(token_timestamp(tok)),
        ),
        token_timestamp(tok).year == 2000 + crate::timestamp::pair_value(tok, 0),
        token_timestamp(tok).month == crate::timestamp::pair_value(tok, 2),
        token_timestamp(tok).day == crate::timestamp::pair_value(tok, 4),
        token_timestamp(tok).hour == crate::timestamp::pair_value(tok, 6),
        token_timestamp(tok).minute == crate::timestamp::pair_value(tok, 8),
        token_timestamp(tok).second == crate::timestamp::pair_value(tok, 10),
        timestamp_wf(token_timestamp(tok)),
{
    crate::extract::lemma_strip_roundtrip(timestamp_prefix(), tok, close_paren());
    crate::timestamp::lemma_accepted_token_components(tok);
}

/// A token of the wrong length, or with a final character outside `S` and
/// `W`, is a soft mismatch: the line is skipped, not an error.
pub proof fn lemma_misshapen_timestamp_token_soft(tok: Seq<char>)
    requires
        !token_shape_ok(tok),
    ensures
        spec_timestamp_outcome(timestamp_prefix() + tok + close_paren()) == Some(
            Option::<Timestamp>::None,
        ),
{
    crate::extract::lemma_strip_roundtrip(timestamp_prefix(), tok, close_paren());
}

/// A shaped token with a non-digit, an out-of-range component or a
/// calendar-impossible day is a hard error.
pub proof fn lemma_invalid_timestamp_token_rejected(tok: Seq<char>)
    requires
        token_shape_ok(tok),
        !(token_digits_ok(tok) && token_in_range(tok)),
    ensures
        spec_timestamp_outcome(timestamp_prefix() + tok + close_paren()) is None,
{
    crate::extract::lemma_strip_roundtrip(timestamp_prefix(), tok, close_paren());
}

/// Composition: a run that ends incomplete continues through appended
/// lines exactly as a fresh run from its final state would.
pub proof fn lemma_run_append(
    p: PartialP1Measurement,
    l1: Seq<Seq<char>>,
    l2: Seq<Seq<char>>,
)
    requires
        spec_run(p, l1) is Incomplete,
    ensures
        spec_run(p, l1 + l2) == spec_run(spec_run_state(p, l1), l2),
    decreases l1.len(),
{
    if l1.len() == 0 {
        assert(l1 + l2 =~= l2);
    } else {
        let q = spec_step(p, l1[0])->0;
        assert((l1 + l2)[0] == l1[0]);
        assert((l1 + l2).skip(1) =~= l1.skip(1) + l2);
        lemma_run_append(q, l1.skip(1), l2);
    }
}

/// A hard error aborts the telegram: when the next line fails hard, the
/// run fails with that line's error, whatever lines follow — even ones
/// that would otherwise complete the reading.
pub proof fn lemma_hard_error_aborts(
    p: PartialP1Measurement,
    bad: Seq<char>,
    rest: Seq<Seq<char>>,
)
    requires
        spec_step(p, bad) is None,
    ensures
        spec_run(p, seq![bad] + rest) == (TelegramOutcome::Failed {
            invalid_number: spec_step_err_is_number(p),
            text: spec_step_err_text(p, bad),
        }),
{
    assert((seq![bad] + rest)[0] == bad);
}

/// A line that matches none of the five recognized shapes.
pub open spec fn line_is_inert(line: Seq<char>) -> bool {
    &&& !strip_ok(line, timestamp_prefix(), close_paren())
    &&& !strip_ok(line, peak_conso_prefix(), kwh_suffix())
    &&& !strip_ok(line, off_conso_prefix(), kwh_suffix())
    &&& !strip_ok(line, peak_inj_prefix(), kwh_suffix())
    &&& !strip_ok(line, off_inj_prefix(), kwh_suffix())
}

/// An inert line is skipped at every stage.
pub proof fn lemma_inert_line_skipped(p: PartialP1Measurement, line: Seq<char>)
    requires
        line_is_inert(line),
    ensures
        spec_step(p, line) == Some(p),
{
}

/// Unrelated lines are harmless: inserting an inert line anywhere in a
/// telegram — gas or water channels, banners, blanks — leaves the outcome
/// unchanged.
pub proof fn lemma_inert_insertion(
    p: PartialP1Measurement,
    lines: Seq<Seq<char>>,
    i: int,
    l: Seq<char>,
)
    requires
        line_is_inert(l),
        0 <= i <= lines.len(),
        !(p is Complete),
    ensures
        spec_run(p, lines.insert(i, l)) == spec_run(p, lines),
    decreases i,
{
    let t = lines.insert(i, l);
    if i == 0 {
        assert(t[0] == l);
        lemma_inert_line_skipped(p, l);
        assert(t.skip(1) =~= lines);
    } else {
        assert(t[0] == lines[0]);
        match spec_step(p, lines[0]) {
            Option::None => {},
            Option::Some(q) => {
                if !(q is Complete) {
                    assert(t.skip(1) =~= lines.skip(1).insert(i - 1, l));
                    lemma_inert_insertion(q, lines.skip(1), i - 1, l);
                }
            },
        }
    }
}

} // verus!
