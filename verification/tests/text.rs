//! Operations on text, against the standard library's own.

use xiuxiu::text::{
    concat_strings, decimal_text, is_white_space, parse_number, same_text, string_of,
    to_ascii_lowercase, trim,
};

#[test]
fn white_space_is_what_unicode_says() {
    for n in 0..=0x10ffffu32 {
        if let Some(c) = char::from_u32(n) {
            assert_eq!(is_white_space(c), c.is_whitespace(), "{n:#x}");
        }
    }
}

#[test]
fn trimming() {
    for s in ["", " ", "a", " a b\t", "\u{3000}x\u{85}", "x\u{200b}", "\u{a0}\u{2028}"] {
        assert_eq!(trim(s), s.trim());
        assert_eq!(trim(&trim(s)), trim(s));
    }
}

#[test]
fn lower_case_of_ascii_only() {
    for s in ["", "ABCxyz@[`{", "ÄÖ İ", "Groq"] {
        assert_eq!(to_ascii_lowercase(s), s.to_ascii_lowercase());
        assert_eq!(trim(&to_ascii_lowercase(s)), to_ascii_lowercase(&trim(s)));
    }
}

#[test]
fn decimals() {
    for n in [0, 7, 10, 99, 100, 12_345, u64::MAX] {
        assert_eq!(decimal_text(n), n.to_string());
        assert_eq!(parse_number(&decimal_text(n)), Some(n));
    }
}

#[test]
fn numbers_as_the_standard_library_reads_them() {
    for s in [
        "", "+", "-", "7", "+7", "-7", "007", " 7", "7 ", "+ 7", "++7", "7.5", "12a",
        "18446744073709551615", "18446744073709551616", "99999999999999999999999", "٣",
        "Wed, 21 Oct 2015 07:28:00 GMT",
    ] {
        assert_eq!(parse_number(s), s.parse::<u64>().ok(), "{s:?}");
    }
}

#[test]
fn joining_and_comparing() {
    assert_eq!(concat_strings(&["a".to_string(), String::new(), "b".to_string()]), "ab");
    assert_eq!(concat_strings(&[]), "");
    assert!(same_text("é", "é"));
    assert!(!same_text("é", "e"));
    assert!(!same_text("a", "ab"));
    assert_eq!(string_of(&['a', 'b', 'c'], 1, 3), "bc");
}
