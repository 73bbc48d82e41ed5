use goose_etl::parse::coerce_real;
use goose_etl::parse::coerce_text;
use goose_etl::parse::is_real_lit;
use goose_etl::parse::parse_int;
use goose_etl::record::coerce_record;

#[test]
fn test_parse_int_plain() {
    assert_eq!(parse_int(Some("42")), 42);
    assert_eq!(parse_int(Some("-7")), -7);
    assert_eq!(parse_int(Some("+5")), 5);
    assert_eq!(parse_int(Some("0")), 0);
}

#[test]
fn test_parse_int_defaults() {
    assert_eq!(parse_int(None), 0);
    assert_eq!(parse_int(Some("")), 0);
    assert_eq!(parse_int(Some("notanumber")), 0);
    assert_eq!(parse_int(Some("1.5")), 0);
    assert_eq!(parse_int(Some("-")), 0);
    assert_eq!(parse_int(Some("12x")), 0);
}

#[test]
fn test_parse_int_range() {
    assert_eq!(parse_int(Some("2147483647")), i32::MAX);
    assert_eq!(parse_int(Some("2147483648")), 0);
    assert_eq!(parse_int(Some("-2147483648")), i32::MIN);
    assert_eq!(parse_int(Some("-2147483649")), 0);
    assert_eq!(parse_int(Some("99999999999999999999")), 0);
}

#[test]
fn test_real_literals() {
    assert!(is_real_lit("0.1"));
    assert!(is_real_lit("1.0"));
    assert!(is_real_lit(".5"));
    assert!(is_real_lit("5."));
    assert!(is_real_lit("-3.25"));
    assert!(is_real_lit("1e5"));
    assert!(is_real_lit("-2.5E-3"));
    assert!(is_real_lit("inf"));
    assert!(is_real_lit("NaN"));
    assert!(is_real_lit("7"));
    assert!(!is_real_lit(""));
    assert!(!is_real_lit("abc"));
    assert!(!is_real_lit("1.2.3"));
    assert!(!is_real_lit("1e"));
    assert!(!is_real_lit("e5"));
    assert!(!is_real_lit("."));
    assert!(!is_real_lit("1e5e5"));
}

#[test]
fn test_real_literals_match_float_parser() {
    let cases = [
        "0.1", "1.0", ".5", "5.", "-3.25", "1e5", "-2.5E-3", "inf", "NaN", "7", "", "abc",
        "1.2.3", "1e", "e5", ".", "1e5e5", "+infinity", "nan", "--1", "1e+3", "1e-",
    ];
    for c in cases {
        assert_eq!(is_real_lit(c), c.parse::<f64>().is_ok(), "case {:?}", c);
    }
}

#[test]
fn test_coerce_real_defaults() {
    assert_eq!(coerce_real(None), "0");
    assert_eq!(coerce_real(Some("bogus")), "0");
    assert_eq!(coerce_real(Some("0.25")), "0.25");
}

#[test]
fn test_coerce_text_defaults() {
    assert_eq!(coerce_text(None), "");
    assert_eq!(coerce_text(Some("AL")), "AL");
}

#[test]
fn test_coerce_record_full_row() {
    let fields: Vec<String> = vec![
        "A".to_string(),
        "2020".to_string(),
        "T1".to_string(),
        "AL".to_string(),
        "1".to_string(),
        "2".to_string(),
        "3".to_string(),
        "0.1".to_string(),
        "1.0".to_string(),
        "0.2".to_string(),
        "0.5".to_string(),
        "k1".to_string(),
    ];
    let r = coerce_record(&fields);
    assert_eq!(r.name, "A");
    assert_eq!(r.year, 2020);
    assert_eq!(r.team, "T1");
    assert_eq!(r.league, "AL");
    assert_eq!(r.goose_eggs, 1);
    assert_eq!(r.broken_eggs, 2);
    assert_eq!(r.mehs, 3);
    assert_eq!(r.league_average_gpct, "0.1");
    assert_eq!(r.ppf, "1.0");
    assert_eq!(r.replacement_gpct, "0.2");
    assert_eq!(r.gwar, "0.5");
    assert_eq!(r.key_retro, "k1");
}

#[test]
fn test_coerce_record_ragged_row() {
    let fields: Vec<String> = vec!["".to_string(), "notanumber".to_string(), "T2".to_string()];
    let r = coerce_record(&fields);
    assert_eq!(r.name, "");
    assert_eq!(r.year, 0);
    assert_eq!(r.team, "T2");
    assert_eq!(r.league, "");
    assert_eq!(r.goose_eggs, 0);
    assert_eq!(r.broken_eggs, 0);
    assert_eq!(r.mehs, 0);
    assert_eq!(r.league_average_gpct, "0");
    assert_eq!(r.ppf, "0");
    assert_eq!(r.replacement_gpct, "0");
    assert_eq!(r.gwar, "0");
    assert_eq!(r.key_retro, "");
}

#[test]
fn test_coerce_record_empty_row() {
    let fields: Vec<String> = vec![];
    let r = coerce_record(&fields);
    assert_eq!(r.name, "");
    assert_eq!(r.year, 0);
    assert_eq!(r.league_average_gpct, "0");
    assert_eq!(r.key_retro, "");
}
