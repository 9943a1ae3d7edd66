use nonstop_notify::text::{is_blank, is_whitespace, str_eq, trim_to_string};

#[test]
fn whitespace_matches_std_for_every_char() {
    for code in 0u32..=0x10ffff {
        if let Some(c) = char::from_u32(code) {
            assert_eq!(is_whitespace(c), c.is_whitespace(), "U+{code:04X}");
        }
    }
}

#[test]
fn trim_matches_std() {
    for text in ["", " ", " a ", "\u{3000}x\u{205f}", "a b", "\n\r\tz\u{85}", "é  "] {
        assert_eq!(trim_to_string(text), text.trim());
        assert_eq!(is_blank(text), text.trim().is_empty());
    }
}

#[test]
fn string_equality() {
    assert!(str_eq("abc", "abc"));
    assert!(!str_eq("abc", "abd"));
    assert!(!str_eq("abc", "ab"));
    assert!(str_eq("", ""));
}
