//! Decimal rendering and parsing of numeric keys, and export naming.

use meshtopo::commands::export_config_file_name;
use meshtopo::text::parse_u32_or_zero;
use meshtopo::text::u32_to_string;
use meshtopo::text::u64_to_string;

#[test]
fn renders_canonical_decimal() {
    assert_eq!(u32_to_string(0), "0");
    assert_eq!(u32_to_string(7), "7");
    assert_eq!(u32_to_string(12345), "12345");
    assert_eq!(u32_to_string(u32::MAX), "4294967295");
    assert_eq!(u64_to_string(1700000000), "1700000000");
}

#[test]
fn parses_digit_strings() {
    assert_eq!(parse_u32_or_zero("0"), 0);
    assert_eq!(parse_u32_or_zero("42"), 42);
    assert_eq!(parse_u32_or_zero("4294967295"), u32::MAX);
}

#[test]
fn unparsable_keys_fall_back_to_zero() {
    assert_eq!(parse_u32_or_zero(""), 0);
    assert_eq!(parse_u32_or_zero("abc"), 0);
    assert_eq!(parse_u32_or_zero("12x"), 0);
    assert_eq!(parse_u32_or_zero("-5"), 0);
    // One past u32::MAX: too large, so the fallback applies.
    assert_eq!(parse_u32_or_zero("4294967296"), 0);
}

#[test]
fn render_then_parse_round_trips() {
    let samples: Vec<u32> = vec![0, 1, 9, 10, 99, 100, 65535, 123456789, u32::MAX];
    for n in samples {
        assert_eq!(parse_u32_or_zero(u32_to_string(n).as_str()), n);
    }
}

#[test]
fn export_file_names() {
    assert_eq!(
        export_config_file_name(None, 1700000000),
        "config-1700000000.config.json"
    );
    assert_eq!(
        export_config_file_name(Some("backup".to_string()), 7),
        "backup-7.config.json"
    );
}
