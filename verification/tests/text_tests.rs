use ellie::text::str_eq;
use ellie::text::str_lt;
use ellie::text::trim_str;

#[test]
fn trim_removes_surrounding_whitespace_only() {
    assert_eq!(trim_str("  spaced  out  "), "spaced  out");
    assert_eq!(trim_str("\t\nmixed\r\n"), "mixed");
    assert_eq!(trim_str("untouched"), "untouched");
    assert_eq!(trim_str("   "), "");
    assert_eq!(trim_str(""), "");
}

#[test]
fn trim_knows_unicode_whitespace() {
    assert_eq!(trim_str("\u{a0}\u{2000}\u{3000}wide\u{2028}\u{205f}"), "wide");
    assert_eq!(trim_str("\u{200b}zero-width is not whitespace"), "\u{200b}zero-width is not whitespace");
}

#[test]
fn string_equality_is_by_characters() {
    assert!(str_eq("same", "same"));
    assert!(!str_eq("same", "samE"));
    assert!(!str_eq("short", "shorter"));
    assert!(str_eq("", ""));
    assert!(str_eq("naïve", "naïve"));
}

#[test]
fn string_order_is_lexicographic_by_code_point() {
    assert!(str_lt("alpha", "beta"));
    assert!(str_lt("alp", "alpha"));
    assert!(!str_lt("beta", "alpha"));
    assert!(!str_lt("equal", "equal"));
    assert!(str_lt("Zoo", "apple"));
}
