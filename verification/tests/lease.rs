use energy_meter::ints::parse_i64;
use energy_meter::ints::parse_usize;
use energy_meter::lease::eq_ignore_case;
use energy_meter::lease::find_hostname_address;
use energy_meter::lease::split_whitespace;
use energy_meter::text::split_lines;
use energy_meter::text::trim_str;

fn lease_lines() -> Vec<String> {
    split_lines(
        "1714513200 aa:bb:cc:dd:ee:01 192.168.100.12 laptop-anna 01:aa:bb:cc:dd:ee:01\n\
         1714513300 aa:bb:cc:dd:ee:02 192.168.100.49 SMA30XXXXX5 *\n\
         1714513400 aa:bb:cc:dd:ee:03 192.168.100.7 printer *",
    )
}

#[test]
fn lease_matching_hostname_yields_address() {
    assert_eq!(
        find_hostname_address(&lease_lines(), "SMA30XXXXX5"),
        Some("192.168.100.49".to_string())
    );
}

#[test]
fn lease_hostname_match_ignores_ascii_case() {
    assert_eq!(
        find_hostname_address(&lease_lines(), "sma30xxxxx5"),
        Some("192.168.100.49".to_string())
    );
}

#[test]
fn lease_unknown_hostname_yields_nothing() {
    assert_eq!(find_hostname_address(&lease_lines(), "UnknownHostname"), None);
}

#[test]
fn lease_short_lines_are_skipped() {
    let lines = split_lines("only three columns\n1 2 192.168.0.9 host *");
    assert_eq!(find_hostname_address(&lines, "columns"), None);
    assert_eq!(find_hostname_address(&lines, "host"), Some("192.168.0.9".to_string()));
}

#[test]
fn split_whitespace_drops_all_separators() {
    let cols = split_whitespace("  a\t bb \n ccc ");
    assert_eq!(cols, vec!["a".to_string(), "bb".to_string(), "ccc".to_string()]);
    assert!(split_whitespace("   ").is_empty());
}

#[test]
fn eq_ignore_case_folds_ascii_only() {
    assert!(eq_ignore_case("HOst", "hoST"));
    assert!(!eq_ignore_case("host", "hosts"));
    assert!(!eq_ignore_case("host", "hopt"));
}

#[test]
fn trim_removes_surrounding_whitespace() {
    assert_eq!(trim_str("  5,6 \t"), "5,6");
    assert_eq!(trim_str("   "), "");
    assert_eq!(trim_str("x"), "x");
}

#[test]
fn split_lines_matches_line_semantics() {
    assert_eq!(split_lines(""), Vec::<String>::new());
    assert_eq!(split_lines("a\r\nb\n"), vec!["a".to_string(), "b".to_string()]);
    assert_eq!(split_lines("\n"), vec!["".to_string()]);
    assert_eq!(split_lines("a"), vec!["a".to_string()]);
}

#[test]
fn parse_i64_grammar_and_range() {
    assert_eq!(parse_i64("1356994800"), Some(1356994800));
    assert_eq!(parse_i64("-393"), Some(-393));
    assert_eq!(parse_i64("+7"), Some(7));
    assert_eq!(parse_i64("9223372036854775807"), Some(i64::MAX));
    assert_eq!(parse_i64("-9223372036854775808"), Some(i64::MIN));
    assert_eq!(parse_i64("9223372036854775808"), None);
    assert_eq!(parse_i64(""), None);
    assert_eq!(parse_i64(" 5"), None);
    assert_eq!(parse_i64("5a"), None);
}

#[test]
fn parse_usize_grammar_and_range() {
    assert_eq!(parse_usize("2"), Some(2));
    assert_eq!(parse_usize("+2"), Some(2));
    assert_eq!(parse_usize("-2"), None);
    assert_eq!(parse_usize("two"), None);
}
