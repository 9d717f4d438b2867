//! Log lines and dialogs.

use xiuxiu::logging::{crash_text, describe_transcript, panic_location, payload_str, to_wide};

#[test]
fn describe_transcript_reports_length_not_content() {
    let secret_speech = "transfer all the money to account 12345";
    let described = describe_transcript(secret_speech);
    assert!(!described.contains("money"));
    assert!(!described.contains("12345"));
    assert!(described.contains("chars"));
    assert!(described.contains(&secret_speech.chars().count().to_string()));
}

#[test]
fn a_description_counts_characters() {
    assert_eq!(describe_transcript("❤é"), "transcript: 2 chars");
    assert_eq!(describe_transcript(""), "transcript: 0 chars");
    assert_eq!(describe_transcript("abc"), describe_transcript("xyz"));
}

#[test]
fn a_panic_in_words() {
    let owned = "owned".to_string();
    assert_eq!(payload_str(Some("literal"), Some(&owned)), "literal");
    assert_eq!(payload_str(None, Some(&owned)), "owned");
    assert_eq!(payload_str(None, None), "Box<dyn Any>");
    assert_eq!(panic_location(Some(("src/app.rs", 42))), "src/app.rs:42");
    assert_eq!(panic_location(None), "unknown location");
    assert_eq!(
        crash_text("boom", "src/app.rs:42"),
        "boom\nat src/app.rs:42\n\nSee xiuxiu.log next to the executable."
    );
}

#[test]
fn wide_text_is_utf16_with_a_zero() {
    for s in ["", "Xiuxiu — idle", "\u{ffff}\u{10000}\u{10ffff}🎉\u{d7ff}\u{e000}"] {
        let expected: Vec<u16> = s.encode_utf16().chain(std::iter::once(0)).collect();
        assert_eq!(to_wide(s), expected);
    }
    assert_eq!(to_wide("é🚀"), [0xe9, 0xd83d, 0xde80, 0]);
}

#[test]
fn wide_text_reads_back() {
    for s in ["", "Xiuxiu — idle", "\u{ffff}\u{10000}\u{10ffff}🎉\u{d7ff}\u{e000}"] {
        let wide = to_wide(s);
        assert_eq!(wide.last(), Some(&0));
        assert_eq!(String::from_utf16(&wide[..wide.len() - 1]).unwrap(), s);
    }
}
