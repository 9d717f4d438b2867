//! The push-to-talk combination.
//!
//! A combination is modifiers and a key joined by `+`, such as
//! `Ctrl+Alt+Space`; `global_hotkey` parses it and gives it the id under which
//! its events arrive.

use crate::text;
use global_hotkey::hotkey::{HotKey, HotKeyParseError};
use vstd::prelude::*;

verus! {

/// Why a text is no combination.
#[derive(Debug)]
pub enum HotkeyError {
    /// Holds the part that names no key.
    UnsupportedKey(String),
    /// There is nothing between two plus signs, or at an end. Holds the text.
    EmptyToken(String),
    /// The key is missing or is not the last part. Holds the text.
    InvalidFormat(String),
}

/// What a [`HotkeyError`] holds.
pub enum HotkeyErrorView {
    UnsupportedKey(Seq<char>),
    EmptyToken(Seq<char>),
    InvalidFormat(Seq<char>),
}

impl View for HotkeyError {
    type V = HotkeyErrorView;

    open spec fn view(&self) -> HotkeyErrorView {
        match self {
            HotkeyError::UnsupportedKey(t) => HotkeyErrorView::UnsupportedKey(t@),
            HotkeyError::EmptyToken(t) => HotkeyErrorView::EmptyToken(t@),
            HotkeyError::InvalidFormat(t) => HotkeyErrorView::InvalidFormat(t@),
        }
    }
}

impl HotkeyErrorView {
    pub open spec fn spec_message(self) -> Seq<char> {
        match self {
            HotkeyErrorView::UnsupportedKey(t) => "Couldn't recognize \""@ + t
                + "\" as a valid key for hotkey, if you feel like it should be, please report this to https://github.com/tauri-apps/muda"@,
            HotkeyErrorView::EmptyToken(t) => "Found empty token while parsing hotkey: "@ + t,
            HotkeyErrorView::InvalidFormat(t) => "Invalid hotkey format: \""@ + t
                + "\", an hotkey should have the modifiers first and only one main key, for example: \"Shift + Alt + K\""@,
        }
    }
}

impl HotkeyError {
    /// The error in the words of `global_hotkey`.
    pub fn message(&self) -> (res: String)
        ensures
            res@ == self@.spec_message(),
    {
        match self {
            HotkeyError::UnsupportedKey(t) => {
                let mut m = "Couldn't recognize \"".to_owned();
                m.append(t.as_str());
                m.append(
                    "\" as a valid key for hotkey, if you feel like it should be, please report this to https://github.com/tauri-apps/muda",
                );
                m
            },
            HotkeyError::EmptyToken(t) => {
                let mut m = "Found empty token while parsing hotkey: ".to_owned();
                m.append(t.as_str());
                m
            },
            HotkeyError::InvalidFormat(t) => {
                let mut m = "Invalid hotkey format: \"".to_owned();
                m.append(t.as_str());
                m.append(
                    "\", an hotkey should have the modifiers first and only one main key, for example: \"Shift + Alt + K\"",
                );
                m
            },
        }
    }
}

/// A parsed combination of `global_hotkey`, as it is registered with the system.
#[verifier::external_type_specification]
#[verifier::external_body]
pub struct ExHotKey(HotKey);

/// Whether a text means the same combination on every system: it holds none of
/// the spellings `CommandOrControl`, `CommandOrCtrl`, `CmdOrCtrl` and
/// `CmdOrControl`, which mean `Super` on macOS and `Ctrl` elsewhere. They alone
/// hold the letters `dor`.
pub open spec fn is_portable(text: Seq<char>) -> bool {
    let t = text::lower(text);
    forall|i: int|
        0 <= i && i + 2 < t.len() ==> !(#[trigger] t[i] == 'd' && t[i + 1] == 'o' && t[i + 2]
            == 'r')
}

/// The combination that a text stands for on macOS, or on any other system, and
/// its id; or why it stands for none.
pub uninterp spec fn combination(text: Seq<char>, macos: bool) -> Result<
    (HotKey, u32),
    HotkeyErrorView,
>;

/// What a parse holds.
pub open spec fn parse_view(parsed: Result<(HotKey, u32), HotkeyError>) -> Result<
    (HotKey, u32),
    HotkeyErrorView,
> {
    match parsed {
        Ok(p) => Ok(p),
        Err(e) => Err(e@),
    }
}

/// Parses a text by `HotKey::from_str` of `global_hotkey`, and takes the id of the
/// hotkey by `HotKey::id`. The claim is that the outcome is a function of the text
/// and of whether the system is macOS, and that the system makes no difference to
/// a portable text nor to an error; that the two errors about the form as a whole
/// hold the text as it was given; and that its letters in lower case stand for the
/// same combination, or for none where the text stands for none.
#[verifier::external_body]
fn parse_key(text: &str) -> (res: Result<(HotKey, u32), HotkeyError>)
    ensures
        exists|macos: bool| parse_view(res) == #[trigger] combination(text@, macos),
        is_portable(text@) || res is Err ==> forall|macos: bool|
            parse_view(res) == #[trigger] combination(text@, macos),
        res is Ok ==> forall|macos: bool| #[trigger] combination(text@, macos) is Ok,
        res matches Err(HotkeyError::EmptyToken(t)) ==> t@ == text@,
        res matches Err(HotkeyError::InvalidFormat(t)) ==> t@ == text@,
        res is Ok ==> forall|macos: bool| #[trigger]
            combination(text::lower(text@), macos) == combination(text@, macos),
        res is Err ==> forall|macos: bool| #[trigger]
            combination(text::lower(text@), macos) is Err,
{
    match text.parse::<HotKey>() {
        Ok(hotkey) => Ok((hotkey, hotkey.id())),
        Err(HotKeyParseError::UnsupportedKey(t)) => Err(HotkeyError::UnsupportedKey(t)),
        Err(HotKeyParseError::EmptyToken(t)) => Err(HotkeyError::EmptyToken(t)),
        Err(HotKeyParseError::InvalidFormat(t)) => Err(HotkeyError::InvalidFormat(t)),
    }
}

/// A combination: its text, what is registered with the system, and the id under
/// which its events arrive.
pub struct Hotkey {
    pub text: String,
    pub key: HotKey,
    pub id: u32,
}

/// The hotkey that a parse of `text` comes to.
pub open spec fn is_hotkey(
    text: Seq<char>,
    parsed: Result<(HotKey, u32), HotkeyErrorView>,
    res: Result<Hotkey, String>,
) -> bool {
    match parsed {
        Ok((key, id)) => res matches Ok(h) && h.text@ == text && h.key == key && h.id == id,
        Err(e) => res matches Err(m) && m@ == parse_message(text, e),
    }
}

/// The startup error for a `HOTKEY` value that is no combination.
pub open spec fn parse_message(text: Seq<char>, error: HotkeyErrorView) -> Seq<char> {
    "parsing HOTKEY \""@ + text
        + "\" — expected a combination like \"Ctrl+Alt+Space\" (modifiers Ctrl/Alt/Shift/Super + a key, joined by +)"@
        + ": "@ + error.spec_message()
}

/// The hotkey for a `HOTKEY` value and what its parse gave, or the startup error
/// that names the value and the syntax.
pub fn resolve_hotkey(text: &str, parsed: Result<(HotKey, u32), HotkeyError>) -> (res: Result<
    Hotkey,
    String,
>)
    ensures
        is_hotkey(text@, parse_view(parsed), res),
{
    match parsed {
        Ok((key, id)) => Ok(Hotkey { text: text.to_owned(), key, id }),
        Err(e) => {
            let mut m = "parsing HOTKEY \"".to_owned();
            m.append(text);
            m.append(
                "\" — expected a combination like \"Ctrl+Alt+Space\" (modifiers Ctrl/Alt/Shift/Super + a key, joined by +)",
            );
            m.append(": ");
            m.append(e.message().as_str());
            Err(m)
        },
    }
}

/// Parses a `HOTKEY` value. Whether it is a combination is the same on every
/// system, and upper and lower case make no difference.
pub fn parse_hotkey(text: &str) -> (res: Result<Hotkey, String>)
    ensures
        exists|macos: bool| is_hotkey(text@, #[trigger] combination(text@, macos), res),
        is_portable(text@) || res is Err ==> forall|macos: bool|
            is_hotkey(text@, #[trigger] combination(text@, macos), res),
        forall|macos: bool| #[trigger] combination(text@, macos) is Ok <==> res is Ok,
        res is Ok ==> forall|macos: bool| #[trigger]
            combination(text::lower(text@), macos) == combination(text@, macos),
        res is Err ==> forall|macos: bool| #[trigger]
            combination(text::lower(text@), macos) is Err,
{
    resolve_hotkey(text, parse_key(text))
}

/// The startup error for a hotkey that could not be registered: it names the
/// hotkey and the way out.
pub open spec fn registration_message(hotkey: Seq<char>, cause: Seq<char>) -> Seq<char> {
    "registering the global hotkey \""@ + hotkey
        + "\" — it may already be in use by another app (e.g. a Windows IME layout switch or PowerToys); set HOTKEY in your .env to a free combination"@
        + ": "@ + cause
}

pub fn registration_error(hotkey: &Hotkey, cause: &str) -> (res: String)
    ensures
        res@ == registration_message(hotkey.text@, cause@),
{
    let mut m = "registering the global hotkey \"".to_owned();
    m.append(hotkey.text.as_str());
    m.append(
        "\" — it may already be in use by another app (e.g. a Windows IME layout switch or PowerToys); set HOTKEY in your .env to a free combination",
    );
    m.append(": ");
    m.append(cause);
    m
}

/// A hotkey holds the text, the combination and the id that its parse gave, and
/// where the parse gave none there is no hotkey.
pub proof fn law_hotkey_is_what_was_parsed(
    text: Seq<char>,
    key: HotKey,
    id: u32,
    error: HotkeyErrorView,
    res: Result<Hotkey, String>,
)
    ensures
        is_hotkey(text, Ok((key, id)), res) ==> (res matches Ok(h) && h.text@ == text && h.key
            == key && h.id == id),
        is_hotkey(text, Err(error), res) ==> res is Err,
{
}

/// The error for a value that is no combination names the value, whole, and ends
/// with the cause; the words between do not depend on either.
pub proof fn law_parse_error_names_the_value(
    text: Seq<char>,
    other: Seq<char>,
    error: HotkeyErrorView,
    other_error: HotkeyErrorView,
)
    ensures
        ({
            let m = parse_message(text, error);
            let n = parse_message(other, other_error);
            let cause = error.spec_message().len() as int;
            let other_cause = other_error.spec_message().len() as int;
            &&& m.take(16) == n.take(16)
            &&& m.subrange(16, 16 + text.len() as int) == text
            &&& m.subrange(16 + text.len() as int, m.len() - cause) == n.subrange(
                16 + other.len() as int,
                n.len() - other_cause,
            )
            &&& m.skip(m.len() - cause) == error.spec_message()
        }),
{
    reveal_strlit("parsing HOTKEY \"");
    let m = parse_message(text, error);
    let n = parse_message(other, other_error);
    let cause = error.spec_message().len() as int;
    let other_cause = other_error.spec_message().len() as int;
    assert(m.take(16) =~= n.take(16));
    assert(m.subrange(16, 16 + text.len() as int) =~= text);
    assert(m.subrange(16 + text.len() as int, m.len() - cause) =~= n.subrange(
        16 + other.len() as int,
        n.len() - other_cause,
    ));
    assert(m.skip(m.len() - cause) =~= error.spec_message());
}

/// The error for a refused registration names the hotkey, whole, and ends with the
/// cause.
pub proof fn law_registration_error_names_the_hotkey(
    hotkey: Seq<char>,
    other: Seq<char>,
    cause: Seq<char>,
    other_cause: Seq<char>,
)
    ensures
        ({
            let m = registration_message(hotkey, cause);
            let n = registration_message(other, other_cause);
            &&& m.take(31) == n.take(31)
            &&& m.subrange(31, 31 + hotkey.len() as int) == hotkey
            &&& m.subrange(31 + hotkey.len() as int, m.len() - cause.len()) == n.subrange(
                31 + other.len() as int,
                n.len() - other_cause.len(),
            )
            &&& m.skip(m.len() - cause.len()) == cause
        }),
{
    reveal_strlit("registering the global hotkey \"");
    let m = registration_message(hotkey, cause);
    let n = registration_message(other, other_cause);
    assert(m.take(31) =~= n.take(31));
    assert(m.subrange(31, 31 + hotkey.len() as int) =~= hotkey);
    assert(m.subrange(31 + hotkey.len() as int, m.len() - cause.len()) =~= n.subrange(
        31 + other.len() as int,
        n.len() - other_cause.len(),
    ));
    assert(m.skip(m.len() - cause.len()) =~= cause);
}

/// An error is seen as it is, and in words it quotes the text it is about, whole.
pub proof fn law_hotkey_errors_quote_the_text(t: String)
    ensures
        HotkeyError::UnsupportedKey(t)@ == HotkeyErrorView::UnsupportedKey(t@),
        HotkeyError::EmptyToken(t)@ == HotkeyErrorView::EmptyToken(t@),
        HotkeyError::InvalidFormat(t)@ == HotkeyErrorView::InvalidFormat(t@),
        HotkeyErrorView::UnsupportedKey(t@).spec_message().subrange(20, 20 + t@.len() as int)
            == t@,
        HotkeyErrorView::EmptyToken(t@).spec_message().skip(40) == t@,
        HotkeyErrorView::InvalidFormat(t@).spec_message().subrange(24, 24 + t@.len() as int)
            == t@,
{
    reveal_strlit("Couldn't recognize \"");
    reveal_strlit("Found empty token while parsing hotkey: ");
    reveal_strlit("Invalid hotkey format: \"");
    assert(HotkeyErrorView::UnsupportedKey(t@).spec_message().subrange(
        20,
        20 + t@.len() as int,
    ) =~= t@);
    assert(HotkeyErrorView::EmptyToken(t@).spec_message().skip(40) =~= t@);
    assert(HotkeyErrorView::InvalidFormat(t@).spec_message().subrange(
        24,
        24 + t@.len() as int,
    ) =~= t@);
}

}
