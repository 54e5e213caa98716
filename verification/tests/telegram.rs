use energy_meter::decimal::DecimalValue;
use energy_meter::extract::strip_prefix_and_suffix;
use energy_meter::telegram::parse_date_time;
use energy_meter::telegram::parse_kwh;
use energy_meter::telegram::parse_lines;
use energy_meter::telegram::CompleteP1Measurement;
use energy_meter::telegram::ParseError;
use energy_meter::text::split_lines;
use energy_meter::timestamp::Timestamp;

#[test]
fn strip_prefix_and_suffix_prefix_mismatch_expect_none() {
    assert_eq!(
        strip_prefix_and_suffix("1-0:2.8.2(002457.202*kWh)", "mismatch", "*kWh)"),
        None
    )
}

#[test]
fn strip_prefix_and_suffix_suffix_mismatch_expect_none() {
    assert_eq!(
        strip_prefix_and_suffix("1-0:2.8.2(002457.202*kWh)", "1-0:2.8.2(", "mismatch)"),
        None
    )
}

#[test]
fn strip_prefix_and_suffix_match_expect_sub_string() {
    assert_eq!(
        strip_prefix_and_suffix("1-0:2.8.2(002457.202*kWh)", "1-0:2.8.2(", "*kWh)"),
        Some("002457.202".to_string())
    )
}

#[test]
fn strip_prefix_and_suffix_overlapping_anchors_expect_none() {
    // Too short to hold both anchors without overlap: no match.
    assert_eq!(strip_prefix_and_suffix("aba", "ab", "ba"), None);
    assert_eq!(strip_prefix_and_suffix("(", "(", ")"), None);
}

#[test]
fn parse_kwh_expect_float() {
    assert_eq!(
        parse_kwh("prefix(12.34*kWh)", "prefix(").unwrap(),
        Some(DecimalValue { milli: 12_340 })
    )
}

#[test]
fn parse_kwh_mismatch_expect_none() {
    assert_eq!(parse_kwh("prefix(12.34*kWh)", "mismatch").unwrap(), None);
    assert_eq!(parse_kwh("prefix(12.34*mismatch)", "prefix(").unwrap(), None)
}

#[test]
fn parse_kwh_bad_float_format_expect_err() {
    assert!(parse_kwh("prefix(bad-float*kWh)", "prefix(").is_err())
}

#[test]
fn parse_kwh_leading_zeros_insignificant() {
    let padded = parse_kwh("1-0:1.8.1(002654.919*kWh)", "1-0:1.8.1(").unwrap();
    let bare = parse_kwh("1-0:1.8.1(2654.919*kWh)", "1-0:1.8.1(").unwrap();
    assert_eq!(padded, Some(DecimalValue { milli: 2_654_919 }));
    assert_eq!(padded, bare);
}

#[test]
fn parse_kwh_token_grammar_edges() {
    assert_eq!(
        parse_kwh("p(12*kWh)", "p(").unwrap(),
        Some(DecimalValue { milli: 12_000 })
    );
    assert_eq!(
        parse_kwh("p(-12.5*kWh)", "p(").unwrap(),
        Some(DecimalValue { milli: -12_500 })
    );
    assert!(parse_kwh("p(12.*kWh)", "p(").is_err());
    assert!(parse_kwh("p(.5*kWh)", "p(").is_err());
    assert!(parse_kwh("p(12.3456*kWh)", "p(").is_err());
    assert!(parse_kwh("p(*kWh)", "p(").is_err());
}

#[test]
fn parse_date_time_mismatch_expect_none() {
    assert_eq!(parse_kwh("prefix(241025191816S)", "mismatch").unwrap(), None);
    assert_eq!(
        parse_kwh("prefix(241025191816S)mismatch", "prefix(").unwrap(),
        None
    )
}

#[test]
fn parse_date_time_good_date_returned() {
    let datetime = parse_date_time("0-0:1.0.0(241025191816S)")
        .expect("Some(date) expected here")
        .expect("date expected here");
    assert_eq!(datetime.year, 2024);
    assert_eq!(datetime.month, 10);
    assert_eq!(datetime.day, 25);
    assert_eq!(datetime.hour, 19);
    assert_eq!(datetime.minute, 18);
    assert_eq!(datetime.second, 16);
}

#[test]
fn parse_date_time_winter_flag_accepted() {
    let datetime = parse_date_time("0-0:1.0.0(241025191816W)")
        .expect("Some(date) expected here")
        .expect("date expected here");
    assert_eq!(
        datetime,
        Timestamp {
            year: 2024,
            month: 10,
            day: 25,
            hour: 19,
            minute: 18,
            second: 16,
        }
    );
}

#[test]
fn parse_date_time_bad_date_error() {
    assert!(parse_date_time("0-0:1.0.0(249925191816S)").is_err());
    assert!(parse_date_time("0-0:1.0.0(240230191816S)").is_err());
    assert_eq!(
        parse_date_time("0-0:1.0.0(2410230191816S)").expect("No error expected here"),
        None
    );
    assert!(parse_date_time("0-0:1.0.0(241023241816S)").is_err());
    assert!(parse_date_time("0-0:1.0.0(241023196016S)").is_err());
    assert!(parse_date_time("0-0:1.0.0(241023195699S)").is_err());
    assert_eq!(
        parse_date_time("0-0:1.0.0(241023195609A)").expect("No error expected here"),
        None
    );
}

#[test]
fn parse_date_time_each_component_range() {
    // month 13, day 30 of February, hour 24, minute 60, second 60
    for line in [
        "0-0:1.0.0(241325191816S)",
        "0-0:1.0.0(240230191816S)",
        "0-0:1.0.0(241023241816S)",
        "0-0:1.0.0(241023196016S)",
        "0-0:1.0.0(241023191860S)",
    ] {
        let r = parse_date_time(line);
        assert!(matches!(r, Err(ParseError::InvalidCalendarField(_))));
    }
    // a leap year keeps the 29th of February
    assert!(parse_date_time("0-0:1.0.0(240229000000S)").unwrap().is_some());
    // a common year does not
    assert!(parse_date_time("0-0:1.0.0(230229000000S)").is_err());
}

#[test]
fn parse_lines_nonsense_returns_ok_none() {
    assert_eq!(
        parse_lines(&split_lines("a\nb\nc")).expect("Ok(None) expected here"),
        None,
    )
}

#[test]
fn parse_lines_happy_path() {
    assert_eq!(
        parse_lines(&split_lines("\n0-0:1.0.0(241025000000S)\n\n1-0:1.8.1(002654.919*kWh)\n\n1-0:1.8.2(002420.293*kWh)\n\n1-0:2.8.1(006254.732*kWh)\n\n1-0:2.8.2(002457.202*kWh)")).expect("Ok(some meas) expected here"),
        Some(CompleteP1Measurement {
            timestamp: Timestamp { year: 2024, month: 10, day: 25, hour: 0, minute: 0, second: 0 },
            peak_hour_consumption: DecimalValue { milli: 2_654_919 },
            off_hour_consumption: DecimalValue { milli: 2_420_293 },
            peak_hour_injection: DecimalValue { milli: 6_254_732 },
            off_hour_injection: DecimalValue { milli: 2_457_202 },
        }),
    )
}

#[test]
fn parse_lines_empty_input_returns_ok_none() {
    assert_eq!(parse_lines(&Vec::new()).unwrap(), None);
}

#[test]
fn parse_lines_bad_expected_line_aborts_whole_telegram() {
    let telegram = "0-0:1.0.0(241025000000S)\n1-0:1.8.1(bad*kWh)\n1-0:1.8.1(002654.919*kWh)\n1-0:1.8.2(002420.293*kWh)\n1-0:2.8.1(006254.732*kWh)\n1-0:2.8.2(002457.202*kWh)";
    let r = parse_lines(&split_lines(telegram));
    assert!(matches!(r, Err(ParseError::InvalidNumber(_))));
}

#[test]
fn parse_lines_unrelated_obis_lines_are_skipped() {
    let telegram = "/FLU5\\253769484_A\n0-0:96.1.1(12345)\n0-0:1.0.0(241025000000S)\n0-1:24.2.1(241025000000S)(00123.456*m3)\n1-0:1.8.1(002654.919*kWh)\n1-0:21.7.0(00.000*kW)\n1-0:1.8.2(002420.293*kWh)\n1-0:2.8.1(006254.732*kWh)\n0-1:24.4.0(1)\n1-0:2.8.2(002457.202*kWh)\n!A1B2";
    let r = parse_lines(&split_lines(telegram)).unwrap();
    assert_eq!(
        r,
        Some(CompleteP1Measurement {
            timestamp: Timestamp { year: 2024, month: 10, day: 25, hour: 0, minute: 0, second: 0 },
            peak_hour_consumption: DecimalValue { milli: 2_654_919 },
            off_hour_consumption: DecimalValue { milli: 2_420_293 },
            peak_hour_injection: DecimalValue { milli: 6_254_732 },
            off_hour_injection: DecimalValue { milli: 2_457_202 },
        })
    );
}

#[test]
fn parse_lines_stops_at_first_complete_reading() {
    // A hard-invalid line after the reading completes is never examined.
    let telegram = "0-0:1.0.0(241025000000S)\n1-0:1.8.1(002654.919*kWh)\n1-0:1.8.2(002420.293*kWh)\n1-0:2.8.1(006254.732*kWh)\n1-0:2.8.2(002457.202*kWh)\n0-0:1.0.0(999999999999S)";
    assert!(parse_lines(&split_lines(telegram)).unwrap().is_some());
}

#[test]
fn parse_lines_out_of_order_line_is_not_retried() {
    // An injection line arriving while consumption is still expected is
    // skipped, and the telegram stays incomplete.
    let telegram = "0-0:1.0.0(241025000000S)\n1-0:2.8.1(006254.732*kWh)\n1-0:1.8.1(002654.919*kWh)";
    assert_eq!(parse_lines(&split_lines(telegram)).unwrap(), None);
}
