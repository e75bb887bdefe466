use printbar::text::{dec_string, repeat_str, str_eq, to_chars, trim_chars};

#[test]
fn decimal_strings() {
    assert_eq!(dec_string(0), "0");
    assert_eq!(dec_string(7), "7");
    assert_eq!(dec_string(165), "165");
    assert_eq!(dec_string(u64::MAX), u64::MAX.to_string());
}

#[test]
fn trimming_matches_std() {
    for s in ["  a b  ", "\u{3000}x\t", "", "   ", "\u{a0}y\u{2028}"] {
        let t: String = trim_chars(&to_chars(s)).into_iter().collect();
        assert_eq!(t, s.trim());
    }
}

#[test]
fn repeats_and_equality() {
    assert_eq!(repeat_str("ab", 3), "ababab");
    assert_eq!(repeat_str("x", 0), "");
    assert!(str_eq("abc", "abc"));
    assert!(!str_eq("abc", "abd"));
}

#[test]
fn whitespace_matches_std() {
    for c in (0u32..=0x10FFFF).filter_map(char::from_u32) {
        assert_eq!(printbar::text::char_is_whitespace(c), c.is_whitespace(), "{c:?}");
    }
}
