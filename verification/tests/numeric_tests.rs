use solar_wind::numeric::check_numeric_text;
use solar_wind::numeric::sanitize_measurement;

#[test]
fn plain_numbers_are_numeric() {
    assert!(check_numeric_text("0"));
    assert!(check_numeric_text("400.2"));
    assert!(check_numeric_text("100000"));
    assert!(check_numeric_text("-3.4"));
    assert!(check_numeric_text("+5"));
    assert!(check_numeric_text("12."));
    assert!(check_numeric_text(".5"));
}

#[test]
fn exponents_are_numeric() {
    assert!(check_numeric_text("1e5"));
    assert!(check_numeric_text("1E5"));
    assert!(check_numeric_text("-2.5e-3"));
    assert!(check_numeric_text("+.5e+3"));
    assert!(check_numeric_text("12.e2"));
}

#[test]
fn special_words_are_numeric_in_any_case() {
    assert!(check_numeric_text("inf"));
    assert!(check_numeric_text("Inf"));
    assert!(check_numeric_text("-INF"));
    assert!(check_numeric_text("infinity"));
    assert!(check_numeric_text("Infinity"));
    assert!(check_numeric_text("NaN"));
    assert!(check_numeric_text("nan"));
    assert!(check_numeric_text("-nan"));
}

#[test]
fn malformed_text_is_not_numeric() {
    assert!(!check_numeric_text(""));
    assert!(!check_numeric_text("-"));
    assert!(!check_numeric_text("."));
    assert!(!check_numeric_text("NaNtext"));
    assert!(!check_numeric_text("abc"));
    assert!(!check_numeric_text("1.2.3"));
    assert!(!check_numeric_text("1e"));
    assert!(!check_numeric_text("e5"));
    assert!(!check_numeric_text("1e5e2"));
    assert!(!check_numeric_text("1 2"));
    assert!(!check_numeric_text("4..2"));
    assert!(!check_numeric_text("--1"));
    assert!(!check_numeric_text("infin"));
}

#[test]
fn numeric_admission_matches_float_parsing() {
    // What the checker admits is exactly what an f64 reader accepts, so the
    // serving edge can always convert admitted text.
    let samples = [
        "0", "400.2", "-3.4", "+5", "12.", ".5", "1e5", "-2.5e-3", "inf", "Infinity", "NaN", "",
        "-", ".", "NaNtext", "abc", "1.2.3", "1e", "e5", "1e5e2", "4..2", "--1", "infin",
    ];
    for s in samples {
        assert_eq!(check_numeric_text(s), s.parse::<f64>().is_ok(), "disagreement on {:?}", s);
    }
}

#[test]
fn sanitize_keeps_numeric_text_verbatim() {
    assert_eq!(sanitize_measurement("400.2"), "400.2");
    assert_eq!(sanitize_measurement("-2.5e-3"), "-2.5e-3");
    assert_eq!(sanitize_measurement("NaN"), "NaN");
}

#[test]
fn sanitize_replaces_malformed_text() {
    assert_eq!(sanitize_measurement("NaNtext"), "0");
    assert_eq!(sanitize_measurement(""), "0");
    assert_eq!(sanitize_measurement("4..2"), "0");
}
