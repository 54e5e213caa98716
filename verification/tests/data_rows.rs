use energy_meter::data_rows::parse_data_202208;
use energy_meter::data_rows::parse_data_202303;
use energy_meter::data_rows::some_str_to_result;
use energy_meter::data_rows::Data202208;
use energy_meter::data_rows::Data202303;
use energy_meter::decimal::DecimalValue;

fn milli(m: i64) -> Option<DecimalValue> {
    Some(DecimalValue { milli: m })
}

#[test]
fn count_and_select_data_202208() {
    let result = parse_data_202208(
        "2\n1356994800|487.0|0.0|82313.0|35983.0|9203.0|-393.0\n1359673200|553.0||82564.0|36184.0|9685.0|-385.0"
    ).unwrap();
    assert_eq!(result.len(), 2);
    assert_eq!(
        result[0],
        Data202208 {
            timestamp: 1356994800,
            pv2012_kWh: milli(487_000),
            pv2022_kWh: milli(0),
            peak_conso_kWh: milli(82_313_000),
            off_conso_kWh: milli(35_983_000),
            gas_m3: milli(9_203_000),
            water_m3: milli(-393_000)
        }
    );
    assert_eq!(
        result[1],
        Data202208 {
            timestamp: 1359673200,
            pv2012_kWh: milli(553_000),
            pv2022_kWh: None,
            peak_conso_kWh: milli(82_564_000),
            off_conso_kWh: milli(36_184_000),
            gas_m3: milli(9_685_000),
            water_m3: milli(-385_000)
        }
    );
}

#[test]
fn count_and_select_data_202303() {
    let result = parse_data_202303(
        "2\n1695485100|50621.3|3579.4|||630.0|1189.4|28973.5|867.5\n1695537420||3579.9||||||"
    ).unwrap();
    assert_eq!(result.len(), 2);
    assert_eq!(
        result[0],
        Data202303 {
            timestamp: 1695485100,
            pv2012_kWh: milli(50_621_300),
            pv2022_kWh: milli(3_579_400),
            peak_conso_kWh: None,
            off_conso_kWh: milli(630_000),
            peak_inj_kWh: None,
            off_inj_kWh: milli(1_189_400),
            gas_m3: milli(28_973_500),
            water_m3: milli(867_500)
        }
    );
    assert_eq!(
        result[1],
        Data202303 {
            timestamp: 1695537420,
            pv2012_kWh: None,
            pv2022_kWh: milli(3_579_900),
            peak_conso_kWh: None,
            peak_inj_kWh: None,
            off_conso_kWh: None,
            off_inj_kWh: None,
            gas_m3: None,
            water_m3: None
        }
    );
}

#[test]
fn parse_data_202208_missing_count_line() {
    let err = parse_data_202208("").expect_err("Err expected here");
    assert_eq!(err, "No row count for data_202208");
}

#[test]
fn parse_data_202208_malformed_count_line() {
    let err = parse_data_202208("two\n1|2|3").expect_err("Err expected here");
    assert_eq!(err, "Malformed row count dor data_202208");
}

#[test]
fn parse_data_202208_malformed_timestamp() {
    let err = parse_data_202208("1\nnoon|487.0").expect_err("Err expected here");
    assert_eq!(err, "Unable to parse timestamp");
}

#[test]
fn parse_data_202208_malformed_column() {
    let err = parse_data_202208("1\n1356994800|487.0|wet").expect_err("Err expected here");
    assert_eq!(err, "invalid decimal literal");
}

#[test]
fn parse_data_202208_short_rows_fill_with_none() {
    let result = parse_data_202208("1\n1356994800|487.0").unwrap();
    assert_eq!(
        result[0],
        Data202208 {
            timestamp: 1356994800,
            pv2012_kWh: milli(487_000),
            pv2022_kWh: None,
            peak_conso_kWh: None,
            off_conso_kWh: None,
            gas_m3: None,
            water_m3: None
        }
    );
}

#[test]
fn some_str_to_result_absent_and_blank() {
    let ok = |s: &str| -> Result<usize, String> { Ok(s.len()) };
    assert_eq!(some_str_to_result(None, ok), Ok(None));
    assert_eq!(some_str_to_result(Some("   "), ok), Ok(None));
}

#[test]
fn some_str_to_result_applies_and_propagates() {
    let ok = |s: &str| -> Result<usize, String> { Ok(s.len()) };
    assert_eq!(some_str_to_result(Some("abc"), ok), Ok(Some(3)));
    let fails = |_: &str| -> Result<usize, String> { Err("boom".to_string()) };
    assert_eq!(some_str_to_result(Some("abc"), fails), Err("boom".to_string()));
}
