//! Typing a transcript.

use xiuxiu::inject::{
    chunk_text, inject_plan, sanitize, InjectAction, InjectError, InjectStep, Injection,
    CHUNK_CHARS, INTER_CHUNK_DELAY_MS,
};

#[test]
fn sanitize_strips_nul_and_control_keeps_unicode() {
    let input = "hello\0 world\u{1b}[31m ❤️\ttab";
    let out = sanitize(input);
    assert!(!out.contains('\0'));
    assert!(!out.contains('\u{1b}'));
    assert!(!out.contains('\t'));
    assert!(out.contains("hello"));
    assert!(out.contains("world"));
    assert!(out.contains('❤'));
}

#[test]
fn sanitize_neutralizes_embedded_newline_and_escape() {
    let dangerous = "rm -rf /\nyes\r\n\u{1b}]0;pwned\u{7}";
    let out = sanitize(dangerous);
    assert!(!out.contains('\n'));
    assert!(!out.contains('\r'));
    assert!(!out.contains('\u{1b}'));
    assert!(out.contains("rm -rf /"));
}

#[test]
fn chunk_splits_preserving_content_and_order() {
    let text: String = "abcdefghij".repeat(20);
    let chunks = chunk_text(&text, CHUNK_CHARS);
    assert!(chunks.iter().all(|c| c.chars().count() <= CHUNK_CHARS));
    assert_eq!(chunks.concat(), text);
    assert_eq!(chunks.len(), (200 + CHUNK_CHARS - 1) / CHUNK_CHARS);
}

#[test]
fn chunk_short_string_is_single_chunk() {
    assert_eq!(chunk_text("hi", CHUNK_CHARS), vec!["hi".to_string()]);
}

#[test]
fn chunk_empty_string_yields_no_chunks() {
    assert!(chunk_text("", CHUNK_CHARS).is_empty());
    assert!(chunk_text(&sanitize("\0\n\r"), CHUNK_CHARS).is_empty());
}

#[test]
fn chunk_does_not_split_multibyte_characters() {
    let emoji = "❤️🎉🚀".repeat(50);
    let chunks = chunk_text(&emoji, 3);
    assert_eq!(chunks.concat(), emoji);
}

#[test]
fn sanitize_at_the_edges() {
    assert_eq!(sanitize("\u{1f}\u{20}\u{7e}\u{7f}\u{80}\u{10ffff}"), "\u{20}\u{7e}\u{80}\u{10ffff}");
    assert_eq!(sanitize(""), "");
    let once = sanitize("a\tb\u{7f}c");
    assert_eq!(once, "abc");
    assert_eq!(sanitize(&once), once);
    assert_eq!(sanitize("a\nb") + &sanitize("\rc"), sanitize("a\nb\rc"));
}

#[test]
fn chunks_of_exact_sizes() {
    assert_eq!(chunk_text("abcdef", 3), ["abc", "def"]);
    assert_eq!(chunk_text("abcdefg", 3), ["abc", "def", "g"]);
    assert_eq!(chunk_text("abc", 0), ["a", "b", "c"]);
    assert_eq!(chunk_text("abc", usize::MAX), ["abc"]);
}

fn steps(text: &str) -> Vec<String> {
    inject_plan(text)
        .iter()
        .map(|s| match s {
            InjectStep::Type(t) => t.clone(),
            InjectStep::Pause(ms) => format!("<{ms}>"),
        })
        .collect()
}

#[test]
fn a_plan_pauses_between_chunks_only() {
    assert_eq!(INTER_CHUNK_DELAY_MS, 10);
    let long = "x".repeat(130);
    let a = "x".repeat(64);
    assert_eq!(steps(&long), [a.as_str(), "<10>", a.as_str(), "<10>", "xx"]);
    assert_eq!(steps(&a), [a.as_str()]);
    assert_eq!(steps("a\nb"), ["ab"]);
    assert!(steps("\n\0").is_empty());
    assert!(steps("").is_empty());
}

#[test]
fn inject_errors_in_words() {
    assert_eq!(
        InjectError::Init("x".to_string()).message(),
        "failed to initialize the input backend: x"
    );
    assert_eq!(InjectError::Type("x".to_string()).message(), "failed to type text: x");
}

/// Carries out the plan for `text` with a backend whose creation fails if `create`
/// does not hold and whose `fail`-th call fails. Gives the calls, whether a backend
/// was asked for, and the outcome.
fn carry_out(text: &str, create: bool, fail: usize) -> (Vec<String>, bool, Result<(), InjectError>) {
    let mut typed = Vec::new();
    let mut asked = false;
    let (mut injection, mut action) = Injection::begin(inject_plan(text));
    loop {
        let reply = match action {
            InjectAction::Create => {
                asked = true;
                if create { Ok(()) } else { Err("no backend".to_string()) }
            }
            InjectAction::Type(t) => {
                typed.push(t);
                if typed.len() == fail { Err("refused".to_string()) } else { Ok(()) }
            }
            InjectAction::Pause(ms) => {
                assert_eq!(ms, INTER_CHUNK_DELAY_MS);
                Ok(())
            }
            InjectAction::Finish(outcome) => return (typed, asked, outcome),
        };
        action = injection.advance(reply);
    }
}

#[test]
fn a_typed_text_is_its_sanitized_chunks() {
    let text = "line\n".repeat(40);
    let (typed, asked, outcome) = carry_out(&text, true, 0);
    assert!(asked && outcome.is_ok());
    assert_eq!(typed, chunk_text(&sanitize(&text), CHUNK_CHARS));
    assert_eq!(typed.concat(), sanitize(&text));
    assert_eq!(typed.len(), 3);
}

#[test]
fn nothing_to_type_asks_for_no_backend() {
    for text in ["", "\n\r\u{1b}"] {
        let (typed, asked, outcome) = carry_out(text, false, 0);
        assert!(typed.is_empty() && !asked && outcome.is_ok());
    }
}

#[test]
fn a_backend_that_fails_types_nothing() {
    let (typed, asked, outcome) = carry_out("hello", false, 0);
    assert!(typed.is_empty() && asked);
    assert!(matches!(outcome, Err(InjectError::Init(m)) if m == "no backend"));
}

#[test]
fn a_failed_chunk_ends_the_typing() {
    let text = "x".repeat(200);
    let chunks = chunk_text(&text, CHUNK_CHARS);
    assert_eq!(chunks.len(), 4);
    for fail in 1..=4usize {
        let (typed, _, outcome) = carry_out(&text, true, fail);
        assert_eq!(typed, chunks[..fail]);
        assert!(matches!(outcome, Err(InjectError::Type(m)) if m == "refused"));
    }
}

#[test]
fn a_pause_cannot_fail() {
    let (mut injection, _) = Injection::begin(inject_plan(&"x".repeat(65)));
    assert!(matches!(injection.advance(Ok(())), InjectAction::Type(t) if t.len() == 64));
    assert!(matches!(injection.advance(Ok(())), InjectAction::Pause(10)));
    let next = injection.advance(Err("ignored".to_string()));
    assert!(matches!(next, InjectAction::Type(t) if t == "x"));
    assert!(matches!(injection.advance(Ok(())), InjectAction::Finish(Ok(()))));
}
