use provenance_stamping::order::{text_order, TextOrder};
use provenance_stamping::text::{
    chars_of, contains, decimal_string, ends_with, is_whitespace, split_ranges, str_eq,
    strip_prefix, trim,
};

#[test]
fn trim_removes_unicode_white_space() {
    assert_eq!(trim("  a b \t\n"), "a b");
    assert_eq!(trim("\u{3000}\u{85}x\u{2028}"), "x");
    assert_eq!(trim("\u{200B}y"), "\u{200B}y");
    assert_eq!(trim("   "), "");
    assert!(is_whitespace('\u{a0}'));
    assert!(!is_whitespace('x'));
}

#[test]
fn prefixes_suffixes_and_infixes() {
    assert_eq!(strip_prefix("Bearer abc", "Bearer "), Some("abc"));
    assert_eq!(strip_prefix("Bear", "Bearer "), None);
    assert!(ends_with("dim.csv", ".csv"));
    assert!(!ends_with("csv", ".csv"));
    assert!(contains("com.infa.DataCollection.x", "DataCollection"));
    assert!(!contains("Data", "DataCollection"));
    assert!(contains("abc", ""));
    assert!(str_eq("é", "é"));
    assert!(!str_eq("é", "e"));
}

#[test]
fn split_ranges_cut_like_str_split() {
    let v = chars_of("a..b.");
    let pieces: Vec<String> = split_ranges(&v, '.')
        .iter()
        .map(|(a, b)| v[*a..*b].iter().collect())
        .collect();
    let expected: Vec<String> = "a..b.".split('.').map(|s| s.to_string()).collect();
    assert_eq!(pieces, expected);
    assert_eq!(split_ranges(&chars_of(""), '.'), vec![(0, 0)]);
}

#[test]
fn decimal_string_writes_integers() {
    assert_eq!(decimal_string(0), "0");
    assert_eq!(decimal_string(10), "10");
    assert_eq!(decimal_string(1234567890123), "1234567890123");
}

#[test]
fn text_order_is_byte_order() {
    assert!(matches!(text_order("B", "a"), TextOrder::Less));
    assert!(matches!(text_order("z", "é"), TextOrder::Less));
    assert!(matches!(text_order("ab", "a"), TextOrder::Greater));
    assert!(matches!(text_order("x", "x"), TextOrder::Equal));
}

#[test]
fn trimming_twice_changes_nothing() {
    for s in ["  a  ", "\u{3000}b\u{85}", "", "   ", "c"] {
        assert_eq!(trim(trim(s)), trim(s));
    }
}
