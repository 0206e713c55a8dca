use roi_tracker::date::{parse_date_any, CivilDate};
use roi_tracker::decimal::{parse_number, Decimal};
use roi_tracker::position::parse_ticker;

#[test]
fn numbers_strip_currency_and_separators() {
    assert_eq!(parse_number("$1,234.5"), Some(Decimal { units: 12345, scale: 1 }));
    assert_eq!(parse_number(" -2.50 "), Some(Decimal { units: -250, scale: 2 }));
    assert_eq!(parse_number("1 000"), Some(Decimal { units: 1000, scale: 0 }));
    assert_eq!(parse_number("+7"), Some(Decimal { units: 7, scale: 0 }));
}

#[test]
fn blank_and_placeholder_numbers_are_missing() {
    assert_eq!(parse_number(""), None);
    assert_eq!(parse_number("   "), None);
    assert_eq!(parse_number("--"), None);
}

#[test]
fn malformed_numbers_are_rejected() {
    assert_eq!(parse_number("abc"), None);
    assert_eq!(parse_number("1.2.3"), None);
    assert_eq!(parse_number("-"), None);
    assert_eq!(parse_number("0.0000000001"), None);
}

#[test]
fn dates_in_both_formats() {
    let d = CivilDate { year: 2024, month: 2, day: 1 };
    assert_eq!(parse_date_any("2024-02-01"), Ok(d));
    assert_eq!(parse_date_any(" 02/01/2024 "), Ok(d));
    assert_eq!(parse_date_any("2024-02-30"), Err(()));
    assert_eq!(parse_date_any("Feb 1 2024"), Err(()));
}

#[test]
fn tickers_are_trimmed_and_upper_cased() {
    assert_eq!(parse_ticker("  aapl "), Ok("AAPL".to_string()));
    assert_eq!(parse_ticker("   "), Err("Ticker cannot be empty".to_string()));
}

#[test]
fn decimal_text_is_exact() {
    assert_eq!(Decimal { units: 11240, scale: 2 }.to_text(), "112.40");
    assert_eq!(Decimal { units: -5, scale: 3 }.to_text(), "-0.005");
    assert_eq!(Decimal { units: 50, scale: 0 }.to_text(), "50");
}

#[test]
fn numeric_bounds_hold_at_their_edges() {
    assert_eq!(
        parse_number("99999999999999"),
        Some(Decimal { units: 99_999_999_999_999, scale: 0 })
    );
    assert_eq!(parse_number("100000000000000"), None);
    assert_eq!(parse_number("0.000000001"), Some(Decimal { units: 1, scale: 9 }));
    assert_eq!(parse_number("-99,999,999,999,999"), Some(Decimal { units: -99_999_999_999_999, scale: 0 }));
}

#[test]
fn exponent_notation_is_folded_into_scale() {
    assert_eq!(parse_number("1e5"), Some(Decimal { units: 100000, scale: 0 }));
    assert_eq!(parse_number("2.5E-3"), Some(Decimal { units: 25, scale: 4 }));
    assert_eq!(parse_number("1.5e2"), Some(Decimal { units: 150, scale: 0 }));
    assert_eq!(parse_number("-3e+0"), Some(Decimal { units: -3, scale: 0 }));
    assert_eq!(parse_number("$1,000e-2"), Some(Decimal { units: 1000, scale: 2 }));
    assert_eq!(parse_number("0e99"), Some(Decimal { units: 0, scale: 0 }));
    assert_eq!(parse_number("1e"), None);
    assert_eq!(parse_number("e5"), None);
    assert_eq!(parse_number("1e2.5"), None);
    assert_eq!(parse_number("1e99"), None);
    assert_eq!(parse_number("inf"), None);
}
