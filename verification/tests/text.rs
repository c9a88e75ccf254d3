use rcli::text::{decimal_string, str_equals, string_of, trimmed};

#[test]
fn trimming_matches_std() {
    for s in ["", " ", "a", " a ", "\t\na b\r\n", "\u{3000}x\u{85}", "\u{200b}y", "  \u{a0}"] {
        assert_eq!(trimmed(s), s.trim(), "{s:?}");
    }
}

#[test]
fn decimal_text() {
    assert_eq!(decimal_string(0), "0");
    assert_eq!(decimal_string(42), "42");
    assert_eq!(decimal_string(u64::MAX), u64::MAX.to_string());
}

#[test]
fn text_helpers() {
    assert!(str_equals("json", "json"));
    assert!(!str_equals("json", "jso"));
    assert_eq!(string_of(&['a', 'é', 'z']), "aéz");
}
