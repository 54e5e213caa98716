//! Parsing of the row-oriented text the storage layer hands back: one
//! line with a row count, then one `|`-separated line per stored row.
//!
//! Each row holds an integer epoch timestamp and nullable decimal columns;
//! a missing or blank column is no value.

use crate::decimal::parse_decimal_token;
use crate::decimal::token_milli;
use crate::decimal::token_ok;
use crate::decimal::DecimalValue;
use crate::ints::i64_token_ok;
use crate::ints::i64_token_value;
use crate::ints::parse_i64;
use crate::ints::parse_usize;
use crate::ints::usize_token_ok;
use crate::text::spec_lines;
use crate::text::spec_trim;
use crate::text::split_by;
use crate::text::split_char;
use crate::text::split_lines;
use crate::text::trim_str;
use vstd::prelude::*;

verus! {

/// One row of the first table layout: four metered quantities beside the
/// photovoltaic counters.
#[derive(Debug, PartialEq)]
#[allow(non_snake_case)]
pub struct Data202208 {
    pub timestamp: i64,
    pub pv2012_kWh: Option<DecimalValue>,
    pub pv2022_kWh: Option<DecimalValue>,
    pub peak_conso_kWh: Option<DecimalValue>,
    pub off_conso_kWh: Option<DecimalValue>,
    pub gas_m3: Option<DecimalValue>,
    pub water_m3: Option<DecimalValue>,
}

/// One row of the later table layout, which adds the two injection
/// counters.
#[derive(Debug, PartialEq)]
#[allow(non_snake_case)]
pub struct Data202303 {
    pub timestamp: i64,
    pub pv2012_kWh: Option<DecimalValue>,
    pub pv2022_kWh: Option<DecimalValue>,
    pub peak_conso_kWh: Option<DecimalValue>,
    pub off_conso_kWh: Option<DecimalValue>,
    pub peak_inj_kWh: Option<DecimalValue>,
    pub off_inj_kWh: Option<DecimalValue>,
    pub gas_m3: Option<DecimalValue>,
    pub water_m3: Option<DecimalValue>,
}

/// Applies `f` to the text when there is some and it is not blank.
/// Nothing in, or blank text in, is no value and no error.
pub fn some_str_to_result<B, F: FnOnce(&str) -> Result<B, String>>(a: Option<&str>, f: F) -> (r:
    Result<Option<B>, String>)
    requires
        a matches Some(s) ==> (spec_trim(s@).len() > 0 ==> call_requires(f, (s,))),
    ensures
        a is None ==> (r matches Ok(o) && o is None),
        a matches Some(s) ==> (spec_trim(s@).len() == 0 ==> (r matches Ok(o) && o is None)),
        a matches Some(s) ==> (spec_trim(s@).len() > 0 ==> (exists|fr: Result<B, String>|
            {
                &&& #[trigger] call_ensures(f, (s,), fr)
                &&& (fr matches Ok(b) ==> r matches Ok(o) && o matches Some(b2) && b2 == b)
                &&& (fr matches Err(e) ==> r matches Err(e2) && e2 == e)
            })),
{
    match a {
        None => Ok(None),
        Some(s) => {
            let t = trim_str(s);
            if t.as_str().unicode_len() == 0 {
                Ok(None)
            } else {
                match f(s) {
                    Ok(b) => Ok(Some(b)),
                    Err(e) => Err(e),
                }
            }
        },
    }
}

/// The text of column `k`, where the row has one.
pub open spec fn col_text(cols: Seq<Seq<char>>, k: int) -> Option<Seq<char>> {
    if 0 <= k < cols.len() {
        Some(cols[k])
    } else {
        Option::None
    }
}

/// A column that is missing, blank, or a well-formed numeral.  The
/// numeral is read from the raw text: a non-blank column with stray
/// characters around the digits is malformed.
pub open spec fn col_clean(cols: Seq<Seq<char>>, k: int) -> bool {
    match col_text(cols, k) {
        Option::None => true,
        Option::Some(s) => spec_trim(s).len() == 0 || token_ok(s),
    }
}

/// The value of a clean column: nothing when missing or blank.
pub open spec fn col_value(cols: Seq<Seq<char>>, k: int) -> Option<DecimalValue> {
    match col_text(cols, k) {
        Option::None => Option::None,
        Option::Some(s) => if spec_trim(s).len() == 0 || !token_ok(s) {
            Option::None
        } else {
            Some(DecimalValue { milli: token_milli(s) as i64 })
        },
    }
}

proof fn lemma_split_nonempty(s: Seq<char>, c: char)
    ensures
        split_by(s, c).len() >= 1,
{
}

/// Reads one nullable decimal column of a row.
fn parse_row_field(cols: &Vec<String>, k: usize) -> (r: Result<Option<DecimalValue>, String>)
    ensures
        col_clean(cols.deep_view(), k as int) ==> (r matches Ok(o) && o == col_value(
            cols.deep_view(),
            k as int,
        )),
        !col_clean(cols.deep_view(), k as int) ==> (r matches Err(m) && m@
            == "invalid decimal literal"@),
{
    if k >= cols.len() {
        return Ok(None);
    }
    let s: &str = cols[k].as_str();
    proof {
        assert(cols.deep_view()[k as int] == cols@[k as int]@);
    }
    let r = some_str_to_result(Some(s), decimal_field);
    r
}

/// Reads one non-blank column's numeral.
fn decimal_field(x: &str) -> (rr: Result<DecimalValue, String>)
    ensures
        rr matches Ok(v) ==> token_ok(x@) && v.milli == token_milli(x@),
        rr is Err ==> !token_ok(x@),
        rr matches Err(m) ==> m@ == "invalid decimal literal"@,
{
    match parse_decimal_token(x) {
        Some(v) => Ok(v),
        None => Err("invalid decimal literal".to_owned()),
    }
}

/// The first table layout's row shape: an integer timestamp, then up to
/// six clean decimal columns.
pub open spec fn row_ok_202208(line: Seq<char>) -> bool {
    let cols = split_by(line, '|');
    &&& i64_token_ok(cols[0])
    &&& col_clean(cols, 1)
    &&& col_clean(cols, 2)
    &&& col_clean(cols, 3)
    &&& col_clean(cols, 4)
    &&& col_clean(cols, 5)
    &&& col_clean(cols, 6)
}

/// The row a well-formed line denotes, column by column.
pub open spec fn row_value_202208(line: Seq<char>) -> Data202208 {
    let cols = split_by(line, '|');
    Data202208 {
        timestamp: i64_token_value(cols[0]) as i64,
        pv2012_kWh: col_value(cols, 1),
        pv2022_kWh: col_value(cols, 2),
        peak_conso_kWh: col_value(cols, 3),
        off_conso_kWh: col_value(cols, 4),
        gas_m3: col_value(cols, 5),
        water_m3: col_value(cols, 6),
    }
}

/// The message a malformed line produces: the timestamp is examined
/// first, the decimal columns after it.
pub open spec fn row_error_202208(line: Seq<char>) -> Seq<char> {
    let cols = split_by(line, '|');
    if !i64_token_ok(cols[0]) {
        "Unable to parse timestamp"@
    } else {
        "invalid decimal literal"@
    }
}

/// The rows that a sequence of well-formed lines denotes, or the first
/// malformed line's message.
pub open spec fn spec_rows_202208(rows: Seq<Seq<char>>) -> Result<Seq<Data202208>, Seq<char>>
    decreases rows.len(),
{
    if rows.len() == 0 {
        Ok(Seq::empty())
    } else if !row_ok_202208(rows[0]) {
        Err(row_error_202208(rows[0]))
    } else {
        match spec_rows_202208(rows.skip(1)) {
            Ok(t) => Ok(seq![row_value_202208(rows[0])] + t),
            Err(e) => Err(e),
        }
    }
}

/// Parses the storage text for the first table layout: a row-count line,
/// then one row per line.  The count line must hold a `usize` numeral;
/// each row's first column must hold an `i64` epoch timestamp.
pub fn parse_data_202208(sql_output: &str) -> (r: Result<Vec<Data202208>, String>)
    ensures
        spec_lines(sql_output@).len() == 0 ==> (r matches Err(m) && m@
            == "No row count for data_202208"@),
        spec_lines(sql_output@).len() > 0 && !usize_token_ok(spec_lines(sql_output@)[0]) ==> (
        r matches Err(m) && m@ == "Malformed row count dor data_202208"@),
        spec_lines(sql_output@).len() > 0 && usize_token_ok(spec_lines(sql_output@)[0]) ==> (match
            spec_rows_202208(spec_lines(sql_output@).skip(1)) {
            Ok(rows) => r matches Ok(v) && v@ == rows,
            Err(e) => r matches Err(m) && m@ == e,
        }),
{
    let lines = split_lines(sql_output);
    if lines.len() == 0 {
        return Err("No row count for data_202208".to_owned());
    }
    if parse_usize(lines[0].as_str()).is_none() {
        proof {
            assert(lines.deep_view()[0] == lines@[0]@);
        }
        return Err("Malformed row count dor data_202208".to_owned());
    }
    proof {
        assert(lines.deep_view()[0] == lines@[0]@);
    }
    let ghost rows = lines.deep_view().skip(1);
    let mut result: Vec<Data202208> = Vec::new();
    let n = lines.len();
    let mut i: usize = 1;
    proof {
        assert(rows.skip(0) =~= rows);
        assert(result@ =~= Seq::<Data202208>::empty());
    }
    while i < n
        invariant
            1 <= i <= n,
            n == lines@.len(),
            lines.deep_view() == spec_lines(sql_output@),
            usize_token_ok(spec_lines(sql_output@)[0]),
            rows == lines.deep_view().skip(1),
            match spec_rows_202208(rows.skip(i - 1)) {
                Ok(t) => spec_rows_202208(rows) == Ok::<Seq<Data202208>, Seq<char>>(result@ + t),
                Err(e) => spec_rows_202208(rows) == Err::<Seq<Data202208>, Seq<char>>(e),
            },
        decreases n - i,
    {
        let line: &str = lines[i].as_str();
        proof {
            assert(lines.deep_view()[i as int] == lines@[i as int]@);
            assert(rows.skip(i - 1)[0] == rows[i - 1]);
            assert(rows[i - 1] == line@);
            lemma_split_nonempty(line@, '|');
        }
        let cols = split_char(line, '|');
        proof {
            assert(cols.deep_view()[0] == cols@[0]@);
        }
        let timestamp = match parse_i64(cols[0].as_str()) {
            Some(v) => v,
            None => {
                return Err("Unable to parse timestamp".to_owned());
            },
        };
        let pv2012 = match parse_row_field(&cols, 1) {
            Ok(o) => o,
            Err(m) => {
                return Err(m);
            },
        };
        let pv2022 = match parse_row_field(&cols, 2) {
            Ok(o) => o,
            Err(m) => {
                return Err(m);
            },
        };
        let peak_conso = match parse_row_field(&cols, 3) {
            Ok(o) => o,
            Err(m) => {
                return Err(m);
            },
        };
        let off_conso = match parse_row_field(&cols, 4) {
            Ok(o) => o,
            Err(m) => {
                return Err(m);
            },
        };
        let gas = match parse_row_field(&cols, 5) {
            Ok(o) => o,
            Err(m) => {
                return Err(m);
            },
        };
        let water = match parse_row_field(&cols, 6) {
            Ok(o) => o,
            Err(m) => {
                return Err(m);
            },
        };
        let ghost prev = result@;
        result.push(
            Data202208 {
                timestamp,
                pv2012_kWh: pv2012,
                pv2022_kWh: pv2022,
                peak_conso_kWh: peak_conso,
                off_conso_kWh: off_conso,
                gas_m3: gas,
                water_m3: water,
            },
        );
        proof {
            assert(rows.skip(i - 1).skip(1) =~= rows.skip(i as int));
            assert(result@ =~= prev.push(row_value_202208(rows[i - 1])));
            match spec_rows_202208(rows.skip(i as int)) {
                Ok(t2) => {
                    assert(prev + (seq![row_value_202208(rows[i - 1])] + t2) =~= result@ + t2);
                },
                Err(_) => {},
            }
        }
        i = i + 1;
    }
    proof {
        assert(rows.skip(n - 1) =~= Seq::<Seq<char>>::empty());
        assert(spec_rows_202208(rows.skip(n - 1)) == Ok::<Seq<Data202208>, Seq<char>>(
            Seq::empty(),
        ));
        assert(result@ + Seq::<Data202208>::empty() =~= result@);
    }
    Ok(result)
}

/// The later table layout's row shape: an integer timestamp, then up to
/// eight clean decimal columns.
pub open spec fn row_ok_202303(line: Seq<char>) -> bool {
    let cols = split_by(line, '|');
    &&& i64_token_ok(cols[0])
    &&& col_clean(cols, 1)
    &&& col_clean(cols, 2)
    &&& col_clean(cols, 3)
    &&& col_clean(cols, 4)
    &&& col_clean(cols, 5)
    &&& col_clean(cols, 6)
    &&& col_clean(cols, 7)
    &&& col_clean(cols, 8)
}

/// The row a well-formed line denotes.  The stored column order differs
/// from the struct's field order: peak injection is the fourth decimal
/// column, off-hour consumption the fifth.
pub open spec fn row_value_202303(line: Seq<char>) -> Data202303 {
    let cols = split_by(line, '|');
    Data202303 {
        timestamp: i64_token_value(cols[0]) as i64,
        pv2012_kWh: col_value(cols, 1),
        pv2022_kWh: col_value(cols, 2),
        peak_conso_kWh: col_value(cols, 3),
        peak_inj_kWh: col_value(cols, 4),
        off_conso_kWh: col_value(cols, 5),
        off_inj_kWh: col_value(cols, 6),
        gas_m3: col_value(cols, 7),
        water_m3: col_value(cols, 8),
    }
}

/// The message a malformed line produces.
pub open spec fn row_error_202303(line: Seq<char>) -> Seq<char> {
    let cols = split_by(line, '|');
    if !i64_token_ok(cols[0]) {
        "Unable to parse timestamp"@
    } else {
        "invalid decimal literal"@
    }
}

/// The rows that a sequence of well-formed lines denotes, or the first
/// malformed line's message.
pub open spec fn spec_rows_202303(rows: Seq<Seq<char>>) -> Result<Seq<Data202303>, Seq<char>>
    decreases rows.len(),
{
    if rows.len() == 0 {
        Ok(Seq::empty())
    } else if !row_ok_202303(rows[0]) {
        Err(row_error_202303(rows[0]))
    } else {
        match spec_rows_202303(rows.skip(1)) {
            Ok(t) => Ok(seq![row_value_202303(rows[0])] + t),
            Err(e) => Err(e),
        }
    }
}

/// Parses the storage text for the later table layout, exactly as
/// [`parse_data_202208`] does for the earlier one.  The row-count error
/// messages kept the earlier table's name, as they always have.
pub fn parse_data_202303(sql_output: &str) -> (r: Result<Vec<Data202303>, String>)
    ensures
        spec_lines(sql_output@).len() == 0 ==> (r matches Err(m) && m@
            == "No row count for data_202208"@),
        spec_lines(sql_output@).len() > 0 && !usize_token_ok(spec_lines(sql_output@)[0]) ==> (
        r matches Err(m) && m@ == "Malformed row count dor data_202208"@),
        spec_lines(sql_output@).len() > 0 && usize_token_ok(spec_lines(sql_output@)[0]) ==> (match
            spec_rows_202303(spec_lines(sql_output@).skip(1)) {
            Ok(rows) => r matches Ok(v) && v@ == rows,
            Err(e) => r matches Err(m) && m@ == e,
        }),
{
    let lines = split_lines(sql_output);
    if lines.len() == 0 {
        return Err("No row count for data_202208".to_owned());
    }
    if parse_usize(lines[0].as_str()).is_none() {
        proof {
            assert(lines.deep_view()[0] == lines@[0]@);
        }
        return Err("Malformed row count dor data_202208".to_owned());
    }
    proof {
        assert(lines.deep_view()[0] == lines@[0]@);
    }
    let ghost rows = lines.deep_view().skip(1);
    let mut result: Vec<Data202303> = Vec::new();
    let n = lines.len();
    let mut i: usize = 1;
    proof {
        assert(rows.skip(0) =~= rows);
        assert(result@ =~= Seq::<Data202303>::empty());
    }
    while i < n
        invariant
            1 <= i <= n,
            n == lines@.len(),
            lines.deep_view() == spec_lines(sql_output@),
            usize_token_ok(spec_lines(sql_output@)[0]),
            rows == lines.deep_view().skip(1),
            match spec_rows_202303(rows.skip(i - 1)) {
                Ok(t) => spec_rows_202303(rows) == Ok::<Seq<Data202303>, Seq<char>>(result@ + t),
                Err(e) => spec_rows_202303(rows) == Err::<Seq<Data202303>, Seq<char>>(e),
            },
        decreases n - i,
    {
        let line: &str = lines[i].as_str();
        proof {
            assert(lines.deep_view()[i as int] == lines@[i as int]@);
            assert(rows.skip(i - 1)[0] == rows[i - 1]);
            assert(rows[i - 1] == line@);
            lemma_split_nonempty(line@, '|');
        }
        let cols = split_char(line, '|');
        proof {
            assert(cols.deep_view()[0] == cols@[0]@);
        }
        let timestamp = match parse_i64(cols[0].as_str()) {
            Some(v) => v,
            None => {
                return Err("Unable to parse timestamp".to_owned());
            },
        };
        let pv2012 = match parse_row_field(&cols, 1) {
            Ok(o) => o,
            Err(m) => {
                return Err(m);
            },
        };
        let pv2022 = match parse_row_field(&cols, 2) {
            Ok(o) => o,
            Err(m) => {
                return Err(m);
            },
        };
        let peak_conso = match parse_row_field(&cols, 3) {
            Ok(o) => o,
            Err(m) => {
                return Err(m);
            },
        };
        let peak_inj = match parse_row_field(&cols, 4) {
            Ok(o) => o,
            Err(m) => {
                return Err(m);
            },
        };
        let off_conso = match parse_row_field(&cols, 5) {
            Ok(o) => o,
            Err(m) => {
                return Err(m);
            },
        };
        let off_inj = match parse_row_field(&cols, 6) {
            Ok(o) => o,
            Err(m) => {
                return Err(m);
            },
        };
        let gas = match parse_row_field(&cols, 7) {
            Ok(o) => o,
            Err(m) => {
                return Err(m);
            },
        };
        let water = match parse_row_field(&cols, 8) {
            Ok(o) => o,
            Err(m) => {
                return Err(m);
            },
        };
        let ghost prev = result@;
        result.push(
            Data202303 {
                timestamp,
                pv2012_kWh: pv2012,
                pv2022_kWh: pv2022,
                peak_conso_kWh: peak_conso,
                off_conso_kWh: off_conso,
                peak_inj_kWh: peak_inj,
                off_inj_kWh: off_inj,
                gas_m3: gas,
                water_m3: water,
            },
        );
        proof {
            assert(rows.skip(i - 1).skip(1) =~= rows.skip(i as int));
            assert(result@ =~= prev.push(row_value_202303(rows[i - 1])));
            match spec_rows_202303(rows.skip(i as int)) {
                Ok(t2) => {
                    assert(prev + (seq![row_value_202303(rows[i - 1])] + t2) =~= result@ + t2);
                },
                Err(_) => {},
            }
        }
        i = i + 1;
    }
    proof {
        assert(rows.skip(n - 1) =~= Seq::<Seq<char>>::empty());
        assert(spec_rows_202303(rows.skip(n - 1)) == Ok::<Seq<Data202303>, Seq<char>>(
            Seq::empty(),
        ));
        assert(result@ + Seq::<Data202303>::empty() =~= result@);
    }
    Ok(result)
}

} // verus!
