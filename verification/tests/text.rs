use fancurve::sort::{lex_le_str, sort_numbers, sort_strings};
use fancurve::text::{
    decimal_string, ends_with, signed_decimal_string, is_whitespace, parse_i64, parse_u32, starts_with, strip_prefix,
    strip_suffix, trim,
};

#[test]
fn trimming_matches_str_trim() {
    for s in ["", "  ", " a ", "\t\nx y\r\n", "\u{3000}wide\u{a0}", "\u{85}x\u{2028}", "none"] {
        assert_eq!(trim(s), s.trim(), "{s:?}");
    }
    for c in ['\u{9}', '\u{d}', ' ', '\u{1680}', '\u{200a}', '\u{205f}', 'a', '\u{200b}'] {
        assert_eq!(is_whitespace(c), c.is_whitespace(), "{c:?}");
    }
}

#[test]
fn parsing_matches_from_str() {
    for s in ["0", "+0", "-0", "42", "+", "-", "", "4294967295", "4294967296", "007", "1_0", " 1", "99999999999999999999"] {
        assert_eq!(parse_u32(s), s.parse::<u32>().ok(), "{s:?}");
        assert_eq!(parse_i64(s), s.parse::<i64>().ok(), "{s:?}");
    }
    for s in ["-9223372036854775808", "-9223372036854775809", "9223372036854775807", "9223372036854775808", "-12"] {
        assert_eq!(parse_i64(s), s.parse::<i64>().ok(), "{s:?}");
    }
}

#[test]
fn decimal_matches_to_string() {
    for n in [0u64, 7, 10, 99, 255, 1000, u32::MAX as u64, u64::MAX] {
        assert_eq!(decimal_string(n), n.to_string());
    }
}

#[test]
fn prefixes_and_suffixes() {
    assert!(starts_with("nct6798", "nct67"));
    assert!(!starts_with("nct", "nct67"));
    assert!(ends_with("temp1_input", "_input"));
    assert!(!ends_with("temp1_label", "_input"));
    assert_eq!(strip_prefix("Model Number: X", "Model Number:"), Some(" X".to_string()));
    assert_eq!(strip_prefix("Serial", "Model"), None);
    assert_eq!(strip_suffix("temp3_input", "_input"), Some("temp3".to_string()));
    assert_eq!(strip_suffix("x", "_input"), None);
}

#[test]
fn string_order_matches_str() {
    let pairs = [("a", "b"), ("b", "a"), ("ab", "a"), ("a", "ab"), ("", ""), ("hwmon10", "hwmon2"), ("é", "z")];
    for (a, b) in pairs {
        assert_eq!(lex_le_str(a, b), a <= b, "{a:?} <= {b:?}");
    }
}

#[test]
fn sorting() {
    let v: Vec<String> = ["hwmon3", "hwmon10", "hwmon1", "hwmon3"].iter().map(|s| s.to_string()).collect();
    assert_eq!(sort_strings(v), vec!["hwmon1", "hwmon10", "hwmon3", "hwmon3"]);
    assert_eq!(sort_numbers(vec![5, 1, 4, 1, 0]), vec![0, 1, 1, 4, 5]);
    assert_eq!(sort_numbers(vec![]), Vec::<u32>::new());
}

#[test]
fn signed_decimal_matches_to_string() {
    for v in [0i64, -1, 7, -40, 40_000, i64::MIN, i64::MAX] {
        assert_eq!(signed_decimal_string(v), v.to_string());
    }
}
