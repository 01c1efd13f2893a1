use orderflow::text::{
    concat_str, str_contains, str_eq, str_starts_with, to_ascii_lowercase, to_ascii_uppercase,
    trim, u64_decimal, u64_decimal_padded,
};

#[test]
fn trim_matches_std() {
    for s in ["  a b  ", "\t\n", "", "x", " \u{3000}全角\u{3000} "] {
        assert_eq!(trim(s), s.trim());
    }
}

#[test]
fn case_folding_is_ascii_only() {
    assert_eq!(to_ascii_lowercase("SoL-É"), "sol-É");
    assert_eq!(to_ascii_uppercase("sol-é"), "SOL-é");
}

#[test]
fn search_and_compare() {
    assert!(str_contains("tick size precision", "precision"));
    assert!(str_contains("abc", ""));
    assert!(!str_contains("ab", "abc"));
    assert!(str_starts_with("SUI-USDT", "SUI"));
    assert!(!str_starts_with("SU", "SUI"));
    assert!(str_eq("a", "a"));
    assert!(!str_eq("a", "b"));
    assert_eq!(concat_str("ab".to_string(), "cd"), "abcd");
}

#[test]
fn decimals() {
    assert_eq!(u64_decimal(0), "0");
    assert_eq!(u64_decimal(1234567), "1234567");
    assert_eq!(u64_decimal(u64::MAX), u64::MAX.to_string());
    assert_eq!(u64_decimal_padded(12, 8), "00000012");
    assert_eq!(u64_decimal_padded(123456789, 8), "123456789");
}
