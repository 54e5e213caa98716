//! Manually submitted meter readings: the raw form input, its display
//! string, and its conversion to exact decimal values.
//!
//! A form field is free text: it is trimmed, a decimal comma is accepted
//! for a decimal point, an empty field means "no reading", and anything
//! else must be a decimal numeral.

use crate::decimal::parse_decimal_token;
use crate::decimal::token_milli;
use crate::decimal::token_ok;
use crate::decimal::DecimalValue;
use crate::text::spec_trim;
use crate::text::trim_str;
use vstd::prelude::*;
use vstd::string::StringExecFns;

verus! {

/// One meter-readings form submission, exactly as the user typed it.
#[derive(Debug)]
#[allow(non_snake_case)]
pub struct MeterReadingsUserInput {
    pub timestamp: String,
    pub pv_2022_prod_kWh: Option<String>,
    pub pv_2012_prod_kWh: Option<String>,
    pub peak_hour_consumption_kWh: Option<String>,
    pub off_hour_consumption_kWh: Option<String>,
    pub peak_hour_injection_kWh: Option<String>,
    pub off_hour_injection_kWh: Option<String>,
    pub gas_m3: Option<String>,
    pub water_m3: Option<String>,
}

/// A field's text, or `null` when the field was absent.
pub open spec fn opt_or_null(o: Option<String>) -> Seq<char> {
    match o {
        Option::None => "null"@,
        Option::Some(s) => s@,
    }
}

/// The display string of a form submission, field by field.
pub open spec fn user_input_display(u: MeterReadingsUserInput) -> Seq<char> {
    "MeterReadingsUserInput(timestamp="@ + u.timestamp@ + ", pv_2022_prod_kWh="@ + opt_or_null(
        u.pv_2022_prod_kWh,
    ) + ", pv_2012_prod_kWh="@ + opt_or_null(u.pv_2012_prod_kWh) + ", peak_hour_consumption_kWh="@
        + opt_or_null(u.peak_hour_consumption_kWh) + ", off_hour_consumption_kWh="@ + opt_or_null(
        u.off_hour_consumption_kWh,
    ) + ", peak_hour_injection_kWh="@ + opt_or_null(u.peak_hour_injection_kWh)
        + ", off_hour_injection_kWh="@ + opt_or_null(u.off_hour_injection_kWh) + ", gas_m3="@
        + opt_or_null(u.gas_m3) + ", water_m3="@ + opt_or_null(u.water_m3) + ")"@
}

fn push_opt(out: &mut String, o: &Option<String>)
    ensures
        final (out)@ == old(out)@ + opt_or_null(*o),
{
    match o {
        Option::None => out.append("null"),
        Option::Some(s) => out.append(s.as_str()),
    }
}

impl MeterReadingsUserInput {
    /// The submission rendered as one line, absent fields shown as `null`.
    pub fn to_string(&self) -> (r: String)
        ensures
            r@ == user_input_display(*self),
    {
        let mut out = String::new();
        out.append("MeterReadingsUserInput(timestamp=");
        out.append(self.timestamp.as_str());
        out.append(", pv_2022_prod_kWh=");
        push_opt(&mut out, &self.pv_2022_prod_kWh);
        out.append(", pv_2012_prod_kWh=");
        push_opt(&mut out, &self.pv_2012_prod_kWh);
        out.append(", peak_hour_consumption_kWh=");
        push_opt(&mut out, &self.peak_hour_consumption_kWh);
        out.append(", off_hour_consumption_kWh=");
        push_opt(&mut out, &self.off_hour_consumption_kWh);
        out.append(", peak_hour_injection_kWh=");
        push_opt(&mut out, &self.peak_hour_injection_kWh);
        out.append(", off_hour_injection_kWh=");
        push_opt(&mut out, &self.off_hour_injection_kWh);
        out.append(", gas_m3=");
        push_opt(&mut out, &self.gas_m3);
        out.append(", water_m3=");
        push_opt(&mut out, &self.water_m3);
        out.append(")");
        out
    }
}

/// A decimal comma exchanged for a decimal point, everywhere.
pub open spec fn comma_to_dot(s: Seq<char>) -> Seq<char> {
    s.map_values(
        |c: char|
            if c == ',' {
                '.'
            } else {
                c
            },
    )
}

fn comma_to_dot_str(s: &str) -> (r: String)
    ensures
        r@ == comma_to_dot(s@),
{
    let n = s.unicode_len();
    let mut out = String::new();
    proof {
        assert(out@ =~= comma_to_dot(s@.take(0)));
    }
    let mut i: usize = 0;
    while i < n
        invariant
            i <= n,
            n == s@.len(),
            out@ == comma_to_dot(s@.take(i as int)),
        decreases n - i,
    {
        let c = s.get_char(i);
        if c == ',' {
            out.append(".");
            proof {
                reveal_strlit(".");
            }
        } else {
            let piece = s.substring_char(i, i + 1);
            out.append(piece);
            proof {
                assert(piece@ =~= seq![s@[i as int]]);
            }
        }
        proof {
            assert(out@ =~= comma_to_dot(s@.take(i + 1)));
        }
        i = i + 1;
    }
    proof {
        assert(s@.take(n as int) =~= s@);
    }
    out
}

/// The message recorded when a field's text is not a decimal numeral.
pub open spec fn invalid_decimal_message(name: Seq<char>) -> Seq<char> {
    name + ": invalid decimal literal"@
}

/// A field's text after trimming and comma normalization.
pub open spec fn field_token(o: Option<String>) -> Seq<char> {
    match o {
        Option::None => Seq::empty(),
        Option::Some(s) => comma_to_dot(spec_trim(s@)),
    }
}

/// An absent field, a blank field, or a well-formed numeral.
pub open spec fn field_clean(o: Option<String>) -> bool {
    match o {
        Option::None => true,
        Option::Some(_) => {
            let t = field_token(o);
            t.len() == 0 || token_ok(t)
        },
    }
}

/// The value a clean field denotes: nothing for absent or blank fields.
pub open spec fn field_value(o: Option<String>) -> Option<DecimalValue> {
    match o {
        Option::None => Option::None,
        Option::Some(_) => {
            let t = field_token(o);
            if t.len() == 0 || !token_ok(t) {
                Option::None
            } else {
                Some(DecimalValue { milli: token_milli(t) as i64 })
            }
        },
    }
}

/// Turns one optional form field into an optional value.  Absent and
/// blank fields are no reading; a malformed numeral is also no reading,
/// but records a message naming the field in `errors`.
pub fn empty_string_as_none(name: &str, opt_de: Option<&str>, errors: &mut Vec<String>) -> (r:
    Option<DecimalValue>)
    ensures
        opt_de is None ==> r is None && final (errors).deep_view() == old(errors).deep_view(),
        opt_de matches Some(de) ==> ({
            let t = comma_to_dot(spec_trim(de@));
            &&& (t.len() == 0 ==> r is None && final (errors).deep_view() == old(
                errors,
            ).deep_view())
            &&& (t.len() > 0 && token_ok(t) ==> (r matches Some(v) && v.milli == token_milli(t))
                && final (errors).deep_view() == old(errors).deep_view())
            &&& (t.len() > 0 && !token_ok(t) ==> r is None && final (errors).deep_view() == old(
                errors,
            ).deep_view().push(invalid_decimal_message(name@)))
        }),
{
    match opt_de {
        None => None,
        Some(de) => {
            let trimmed = trim_str(de);
            let opt = comma_to_dot_str(trimmed.as_str());
            if opt.as_str().unicode_len() == 0 {
                None
            } else {
                match parse_decimal_token(opt.as_str()) {
                    Some(v) => Some(v),
                    None => {
                        let mut msg = name.to_owned();
                        msg.append(": invalid decimal literal");
                        let ghost prev = errors.deep_view();
                        errors.push(msg);
                        proof {
                            assert(errors.deep_view() =~= prev.push(
                                invalid_decimal_message(name@),
                            ));
                        }
                        None
                    },
                }
            }
        },
    }
}

/// A validated form submission: the timestamp text and one exact optional
/// value for each metered quantity.
#[derive(Debug)]
#[allow(non_snake_case)]
pub struct MeterReadings {
    pub timestamp: String,
    pub pv_2022_prod_kWh: Option<DecimalValue>,
    pub pv_2012_prod_kWh: Option<DecimalValue>,
    pub peak_hour_consumption_kWh: Option<DecimalValue>,
    pub off_hour_consumption_kWh: Option<DecimalValue>,
    pub peak_hour_injection_kWh: Option<DecimalValue>,
    pub off_hour_injection_kWh: Option<DecimalValue>,
    pub gas_m3: Option<DecimalValue>,
    pub water_m3: Option<DecimalValue>,
}

/// The message a field contributes when its text is malformed.
pub open spec fn maybe_msg(o: Option<String>, name: Seq<char>) -> Seq<Seq<char>> {
    if field_clean(o) {
        Seq::empty()
    } else {
        seq![invalid_decimal_message(name)]
    }
}

/// Every malformed field's message, in the order the fields are examined.
pub open spec fn spec_error_list(u: MeterReadingsUserInput) -> Seq<Seq<char>> {
    maybe_msg(u.pv_2012_prod_kWh, "pv_2012_prod_kWh"@) + maybe_msg(
        u.pv_2022_prod_kWh,
        "pv_2022_prod_kWh"@,
    ) + maybe_msg(u.peak_hour_consumption_kWh, "peak_hour_consumption_kWh"@) + maybe_msg(
        u.off_hour_consumption_kWh,
        "off_hour_consumption_kWh"@,
    ) + maybe_msg(u.peak_hour_injection_kWh, "peak_hour_injection_kWh"@) + maybe_msg(
        u.off_hour_injection_kWh,
        "off_hour_injection_kWh"@,
    ) + maybe_msg(u.gas_m3, "gas_m3"@) + maybe_msg(u.water_m3, "water_m3"@)
}

/// Messages joined with `"; "` between them.
pub open spec fn join_semi(msgs: Seq<Seq<char>>) -> Seq<char>
    decreases msgs.len(),
{
    if msgs.len() == 0 {
        Seq::empty()
    } else if msgs.len() == 1 {
        msgs[0]
    } else {
        msgs[0] + "; "@ + join_semi(msgs.skip(1))
    }
}

proof fn lemma_join_push(msgs: Seq<Seq<char>>, m: Seq<char>)
    ensures
        join_semi(msgs.push(m)) == if msgs.len() == 0 {
            m
        } else {
            join_semi(msgs) + "; "@ + m
        },
    decreases msgs.len(),
{
    if msgs.len() == 0 {
        assert(msgs.push(m) =~= seq![m]);
        assert(join_semi(seq![m]) == m);
    } else if msgs.len() == 1 {
        assert(msgs.push(m).skip(1) =~= seq![m]);
        assert(join_semi(seq![m]) == m);
        assert(join_semi(msgs.push(m)) == msgs.push(m)[0] + "; "@ + join_semi(msgs.push(m).skip(1)));
    } else {
        assert(msgs.push(m).skip(1) =~= msgs.skip(1).push(m));
        lemma_join_push(msgs.skip(1), m);
        assert(msgs[0] + "; "@ + (join_semi(msgs.skip(1)) + "; "@ + m) =~= (msgs[0] + "; "@
            + join_semi(msgs.skip(1))) + "; "@ + m);
    }
}

fn join_semicolon(v: &Vec<String>) -> (r: String)
    ensures
        r@ == join_semi(v.deep_view()),
{
    let mut out = String::new();
    proof {
        assert(v.deep_view().take(0) =~= Seq::<Seq<char>>::empty());
        assert(out@ =~= Seq::<char>::empty());
    }
    let mut i: usize = 0;
    while i < v.len()
        invariant
            i <= v@.len(),
            v.deep_view().len() == v@.len(),
            out@ == join_semi(v.deep_view().take(i as int)),
        decreases v@.len() - i,
    {
        if i > 0 {
            out.append("; ");
        }
        out.append(v[i].as_str());
        proof {
            let dv = v.deep_view();
            assert(dv[i as int] == v@[i as int]@);
            assert(dv.take(i + 1) =~= dv.take(i as int).push(dv[i as int]));
            lemma_join_push(dv.take(i as int), dv[i as int]);
        }
        i = i + 1;
    }
    proof {
        assert(v.deep_view().take(v@.len() as int) =~= v.deep_view());
    }
    out
}

/// Validates a whole form submission.  When every field is clean the
/// readings are returned, each field converted independently; otherwise
/// every malformed field's message, joined with `"; "`, is the error.
pub fn parse_meter_values(ui: MeterReadingsUserInput) -> (r: Result<MeterReadings, String>)
    ensures
        r is Ok <==> spec_error_list(ui).len() == 0,
        r matches Ok(mr) ==> ({
            &&& mr.timestamp@ == ui.timestamp@
            &&& mr.pv_2012_prod_kWh == field_value(ui.pv_2012_prod_kWh)
            &&& mr.pv_2022_prod_kWh == field_value(ui.pv_2022_prod_kWh)
            &&& mr.peak_hour_consumption_kWh == field_value(ui.peak_hour_consumption_kWh)
            &&& mr.off_hour_consumption_kWh == field_value(ui.off_hour_consumption_kWh)
            &&& mr.peak_hour_injection_kWh == field_value(ui.peak_hour_injection_kWh)
            &&& mr.off_hour_injection_kWh == field_value(ui.off_hour_injection_kWh)
            &&& mr.gas_m3 == field_value(ui.gas_m3)
            &&& mr.water_m3 == field_value(ui.water_m3)
        }),
        r matches Err(msg) ==> msg@ == join_semi(spec_error_list(ui)),
{
    let mut error_messages: Vec<String> = Vec::new();
    proof {
        assert(error_messages.deep_view() =~= Seq::<Seq<char>>::empty());
    }
    let pv_2012 = empty_string_as_none(
        "pv_2012_prod_kWh",
        match &ui.pv_2012_prod_kWh {
            None => None,
            Some(s) => Some(s.as_str()),
        },
        &mut error_messages,
    );
    let ghost m1 = maybe_msg(ui.pv_2012_prod_kWh, "pv_2012_prod_kWh"@);
    proof {
        assert(error_messages.deep_view() =~= m1);
    }
    let pv_2022 = empty_string_as_none(
        "pv_2022_prod_kWh",
        match &ui.pv_2022_prod_kWh {
            None => None,
            Some(s) => Some(s.as_str()),
        },
        &mut error_messages,
    );
    let ghost m2 = m1 + maybe_msg(ui.pv_2022_prod_kWh, "pv_2022_prod_kWh"@);
    proof {
        assert(error_messages.deep_view() =~= m2);
    }
    let peak_conso = empty_string_as_none(
        "peak_hour_consumption_kWh",
        match &ui.peak_hour_consumption_kWh {
            None => None,
            Some(s) => Some(s.as_str()),
        },
        &mut error_messages,
    );
    let ghost m3 = m2 + maybe_msg(ui.peak_hour_consumption_kWh, "peak_hour_consumption_kWh"@);
    proof {
        assert(error_messages.deep_view() =~= m3);
    }
    let off_conso = empty_string_as_none(
        "off_hour_consumption_kWh",
        match &ui.off_hour_consumption_kWh {
            None => None,
            Some(s) => Some(s.as_str()),
        },
        &mut error_messages,
    );
    let ghost m4 = m3 + maybe_msg(ui.off_hour_consumption_kWh, "off_hour_consumption_kWh"@);
    proof {
        assert(error_messages.deep_view() =~= m4);
    }
    let peak_inj = empty_string_as_none(
        "peak_hour_injection_kWh",
        match &ui.peak_hour_injection_kWh {
            None => None,
            Some(s) => Some(s.as_str()),
        },
        &mut error_messages,
    );
    let ghost m5 = m4 + maybe_msg(ui.peak_hour_injection_kWh, "peak_hour_injection_kWh"@);
    proof {
        assert(error_messages.deep_view() =~= m5);
    }
    let off_inj = empty_string_as_none(
        "off_hour_injection_kWh",
        match &ui.off_hour_injection_kWh {
            None => None,
            Some(s) => Some(s.as_str()),
        },
        &mut error_messages,
    );
    let ghost m6 = m5 + maybe_msg(ui.off_hour_injection_kWh, "off_hour_injection_kWh"@);
    proof {
        assert(error_messages.deep_view() =~= m6);
    }
    let gas = empty_string_as_none(
        "gas_m3",
        match &ui.gas_m3 {
            None => None,
            Some(s) => Some(s.as_str()),
        },
        &mut error_messages,
    );
    let ghost m7 = m6 + maybe_msg(ui.gas_m3, "gas_m3"@);
    proof {
        assert(error_messages.deep_view() =~= m7);
    }
    let water = empty_string_as_none(
        "water_m3",
        match &ui.water_m3 {
            None => None,
            Some(s) => Some(s.as_str()),
        },
        &mut error_messages,
    );
    proof {
        assert(error_messages.deep_view() =~= spec_error_list(ui));
    }
    if error_messages.len() == 0 {
        Ok(
            MeterReadings {
                timestamp: ui.timestamp,
                pv_2022_prod_kWh: pv_2022,
                pv_2012_prod_kWh: pv_2012,
                peak_hour_consumption_kWh: peak_conso,
                off_hour_consumption_kWh: off_conso,
                peak_hour_injection_kWh: peak_inj,
                off_hour_injection_kWh: off_inj,
                gas_m3: gas,
                water_m3: water,
            },
        )
    } else {
        Err(join_semicolon(&error_messages))
    }
}

} // verus!
