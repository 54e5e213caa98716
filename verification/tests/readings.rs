use energy_meter::decimal::DecimalValue;
use energy_meter::readings::empty_string_as_none;
use energy_meter::readings::parse_meter_values;
use energy_meter::readings::MeterReadingsUserInput;

fn sample_input() -> MeterReadingsUserInput {
    MeterReadingsUserInput {
        timestamp: "2023-05-22 20:40".to_string(),
        pv_2022_prod_kWh: Some("1848.2".to_string()),
        pv_2012_prod_kWh: Some(" 10.5  ".to_string()),
        peak_hour_consumption_kWh: Some("  5,6".to_string()),
        off_hour_consumption_kWh: Some("6,5  ".to_string()),
        peak_hour_injection_kWh: None,
        off_hour_injection_kWh: Some("".to_string()),
        gas_m3: Some("  ".to_string()),
        water_m3: None,
    }
}

#[test]
fn empty_string_as_none_absent_field() {
    let mut errors: Vec<String> = Vec::new();
    assert_eq!(empty_string_as_none("gas_m3", None, &mut errors), None);
    assert!(errors.is_empty());
}

#[test]
fn empty_string_as_none_blank_field() {
    let mut errors: Vec<String> = Vec::new();
    assert_eq!(empty_string_as_none("gas_m3", Some("   "), &mut errors), None);
    assert!(errors.is_empty());
}

#[test]
fn empty_string_as_none_comma_and_padding() {
    let mut errors: Vec<String> = Vec::new();
    assert_eq!(
        empty_string_as_none("gas_m3", Some("  5,6 "), &mut errors),
        Some(DecimalValue { milli: 5_600 })
    );
    assert!(errors.is_empty());
}

#[test]
fn empty_string_as_none_malformed_field_records_error() {
    let mut errors: Vec<String> = Vec::new();
    assert_eq!(empty_string_as_none("water_m3", Some("wet"), &mut errors), None);
    assert_eq!(errors, vec!["water_m3: invalid decimal literal".to_string()]);
}

#[test]
fn parse_meter_values_happy_path() {
    let mr = parse_meter_values(sample_input()).expect("Ok expected here");
    assert_eq!(mr.timestamp, "2023-05-22 20:40");
    assert_eq!(mr.pv_2022_prod_kWh, Some(DecimalValue { milli: 1_848_200 }));
    assert_eq!(mr.pv_2012_prod_kWh, Some(DecimalValue { milli: 10_500 }));
    assert_eq!(mr.peak_hour_consumption_kWh, Some(DecimalValue { milli: 5_600 }));
    assert_eq!(mr.off_hour_consumption_kWh, Some(DecimalValue { milli: 6_500 }));
    assert_eq!(mr.peak_hour_injection_kWh, None);
    assert_eq!(mr.off_hour_injection_kWh, None);
    assert_eq!(mr.gas_m3, None);
    assert_eq!(mr.water_m3, None);
}

#[test]
fn parse_meter_values_joins_error_messages() {
    let mut ui = sample_input();
    ui.pv_2012_prod_kWh = Some("ten and a half".to_string());
    ui.gas_m3 = Some("1.2.3".to_string());
    let err = parse_meter_values(ui).expect_err("Err expected here");
    assert_eq!(
        err,
        "pv_2012_prod_kWh: invalid decimal literal; gas_m3: invalid decimal literal"
    );
}

#[test]
fn user_input_to_string_shows_null_for_absent_fields() {
    let s = sample_input().to_string();
    assert_eq!(
        s,
        "MeterReadingsUserInput(timestamp=2023-05-22 20:40, pv_2022_prod_kWh=1848.2, \
         pv_2012_prod_kWh= 10.5  , peak_hour_consumption_kWh=  5,6, \
         off_hour_consumption_kWh=6,5  , peak_hour_injection_kWh=null, \
         off_hour_injection_kWh=, gas_m3=  , water_m3=null)"
    );
}
