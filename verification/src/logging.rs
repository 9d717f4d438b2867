//! What is written to the log and shown in dialogs.
//!
//! Neither a transcript nor the API key ever reaches the log: where a transcript
//! has to be mentioned, [`describe_transcript`] says how long it is and nothing
//! else.

use crate::text;
use vstd::prelude::*;

verus! {

/// What the log says of a transcript with this many characters.
pub open spec fn description(chars: nat) -> Seq<char> {
    "transcript: "@ + text::decimal(chars) + " chars"@
}

/// Describes a transcript by its number of characters.
pub fn describe_transcript(text: &str) -> (res: String)
    ensures
        res@ == description(text@.len()),
{
    let mut m = "transcript: ".to_owned();
    m.append(text::decimal_text(text.unicode_len() as u64).as_str());
    m.append(" chars");
    m
}

/// Two transcripts of the same length are described alike, whatever they say.
pub proof fn law_description_shows_only_length(
    transcript: Seq<char>,
    other: Seq<char>,
)
    requires
        transcript.len() == other.len(),
    ensures
        description(transcript.len()) == description(other.len()),
{
}

/// The message of a panic, given its payload as the two types that hold one.
pub fn payload_str(literal: Option<&str>, owned: Option<&String>) -> (res: String)
    ensures
        res@ == match (literal, owned) {
            (Some(s), _) => s@,
            (None, Some(s)) => s@,
            (None, None) => "Box<dyn Any>"@,
        },
{
    match literal {
        Some(s) => s.to_owned(),
        None => match owned {
            Some(s) => s.clone(),
            None => "Box<dyn Any>".to_owned(),
        },
    }
}

/// A place in a file, as `file:line`.
pub open spec fn location_text(file: Seq<char>, line: nat) -> Seq<char> {
    file + ":"@ + text::decimal(line)
}

/// Where a panic happened, as `file:line`.
pub fn panic_location(location: Option<(&str, u32)>) -> (res: String)
    ensures
        res@ == match location {
            Some((file, line)) => file@ + ":"@ + text::decimal(line as nat),
            None => "unknown location"@,
        },
        location matches Some((file, line)) ==> res@ == location_text(file@, line as nat),
{
    match location {
        Some((file, line)) => {
            let mut m = file.to_owned();
            m.append(":");
            m.append(text::decimal_text(line as u64).as_str());
            m
        },
        None => "unknown location".to_owned(),
    }
}

/// The text for a crash with this message at this place.
pub open spec fn crash_message(message: Seq<char>, location: Seq<char>) -> Seq<char> {
    message + "\nat "@ + location + "\n\nSee xiuxiu.log next to the executable."@
}

/// The text of the dialog that a crash shows.
pub fn crash_text(message: &str, location: &str) -> (res: String)
    ensures
        res@ == message@ + "\nat "@ + location@ + "\n\nSee xiuxiu.log next to the executable."@,
        res@ == crash_message(message@, location@),
{
    let mut m = message.to_owned();
    m.append("\nat ");
    m.append(location);
    m.append("\n\nSee xiuxiu.log next to the executable.");
    m
}

/// The UTF-16 code units of one character: one unit, or a surrogate pair beyond
/// the basic plane.
pub open spec fn utf16_units(c: char) -> Seq<u16> {
    let u = c as u32 as int;
    if u < 0x10000 {
        seq![u as u16]
    } else {
        seq![(0xd800 + (u - 0x10000) / 0x400) as u16, (0xdc00 + (u - 0x10000) % 0x400) as u16]
    }
}

/// The UTF-16 code units of a text.
pub open spec fn utf16(s: Seq<char>) -> Seq<u16>
    decreases s.len(),
{
    if s.len() == 0 {
        Seq::empty()
    } else {
        utf16(s.drop_last()) + utf16_units(s.last())
    }
}

/// `s` as a NUL-terminated UTF-16 string, the form system dialogs take.
pub fn to_wide(s: &str) -> (res: Vec<u16>)
    ensures
        res@ == utf16(s@).push(0),
{
    let mut out: Vec<u16> = Vec::new();
    for c in it: s.chars()
        invariant
            it.seq() == s@,
            out@ == utf16(s@.take(it.index())),
    {
        let ghost before = out@;
        let u: u32 = c as u32;
        if u < 0x10000 {
            out.push(u as u16);
            proof {
                assert(out@ =~= before + utf16_units(c));
            }
        } else {
            let v: u32 = u - 0x10000;
            out.push((0xd800 + v / 0x400) as u16);
            out.push((0xdc00 + v % 0x400) as u16);
            proof {
                assert(out@ =~= before + utf16_units(c));
            }
        }
        proof {
            assert(s@.take(it.index() + 1).drop_last() =~= s@.take(it.index()));
        }
    }
    proof {
        assert(s@.take(s@.len() as int) =~= s@);
    }
    out.push(0);
    out
}

proof fn lemma_units_not_nul(c: char)
    requires
        c != '\0',
    ensures
        forall|k: int| 0 <= k < utf16_units(c).len() ==> #[trigger] utf16_units(c)[k] != 0,
{
    assert(c as u32 != 0);
}

/// A text without NUL gives a wide string whose only NUL is the one at its end,
/// so nothing of it is cut off.
pub proof fn law_wide_text_is_not_cut(s: Seq<char>)
    requires
        !s.contains('\0'),
    ensures
        forall|i: int| 0 <= i < utf16(s).len() ==> #[trigger] utf16(s)[i] != 0,
    decreases s.len(),
{
    if s.len() > 0 {
        let init = s.drop_last();
        assert(!init.contains('\0')) by {
            if init.contains('\0') {
                let k = init.index_of('\0');
                assert(s[k] == '\0');
            }
        }
        law_wide_text_is_not_cut(init);
        assert(s[s.len() - 1] != '\0');
        assert forall|i: int| 0 <= i < utf16(s).len() implies #[trigger] utf16(s)[i] != 0 by {
            if i < utf16(init).len() {
                assert(utf16(s)[i] == utf16(init)[i]);
            } else {
                let k = i - utf16(init).len();
                let units = utf16_units(s.last());
                assert(utf16(s)[i] == units[k]);
                lemma_units_not_nul(s.last());
            }
        }
    }
}

/// The text that UTF-16 code units stand for: a unit below the surrogates or above
/// them is a character, and of two surrogates the first holds the upper ten bits.
pub open spec fn utf16_text(units: Seq<u16>) -> Seq<char>
    decreases units.len(),
{
    if units.len() == 0 {
        Seq::empty()
    } else if units.len() >= 2 && 0xdc00 <= units.last() <= 0xdfff {
        let high = units[units.len() - 2];
        let low = units.last();
        utf16_text(units.take(units.len() - 2)).push(
            (0x10000 + (high - 0xd800) * 0x400 + (low - 0xdc00)) as char,
        )
    } else {
        utf16_text(units.drop_last()).push(units.last() as char)
    }
}

proof fn lemma_units_decode(before: Seq<u16>, c: char)
    ensures
        utf16_text(before + utf16_units(c)) == utf16_text(before).push(c),
{
    let u = c as u32 as int;
    let units = before + utf16_units(c);
    if u < 0x10000 {
        assert(units.drop_last() =~= before);
        assert(units.last() == u);
    } else {
        let v = u - 0x10000;
        assert(units.take(units.len() - 2) =~= before);
        assert(units.last() == 0xdc00 + v % 0x400);
        assert(units[units.len() - 2] == 0xd800 + v / 0x400);
        assert(0x10000 + (v / 0x400) * 0x400 + v % 0x400 == u);
    }
}

/// A wide string decodes back to its text: up to the NUL at its end it is the text
/// in UTF-16, and nothing of it is lost.
pub proof fn law_wide_text_reads_back(s: Seq<char>)
    ensures
        utf16_text(utf16(s).push(0).drop_last()) == s,
    decreases s.len(),
{
    assert(utf16(s).push(0).drop_last() =~= utf16(s));
    if s.len() > 0 {
        let init = s.drop_last();
        law_wide_text_reads_back(init);
        assert(utf16(init).push(0).drop_last() =~= utf16(init));
        lemma_units_decode(utf16(init), s.last());
        assert(init.push(s.last()) =~= s);
    } else {
        assert(utf16_text(utf16(s)) =~= s);
    }
}

/// A description tells the exact number of characters, between words that do not
/// depend on it; so transcripts of different lengths are told apart.
pub proof fn law_description_tells_the_length(n: nat, other: nat)
    ensures
        description(n).subrange(12, description(n).len() - 6) == text::decimal(n),
        description(n).take(12) == description(other).take(12),
        description(n).skip(description(n).len() - 6) == description(other).skip(
            description(other).len() - 6,
        ),
{
    reveal_strlit("transcript: ");
    reveal_strlit(" chars");
    assert(description(n).subrange(12, description(n).len() - 6) =~= text::decimal(n));
    assert(description(n).take(12) =~= description(other).take(12));
    assert(description(n).skip(description(n).len() - 6) =~= description(other).skip(
        description(other).len() - 6,
    ));
}

/// Wide text is made character by character, in order: a character below code
/// point 65536 is one unit, its code point; any other is two.
pub proof fn law_wide_text_in_order(a: Seq<char>, b: Seq<char>, c: char)
    ensures
        utf16(a + b) == utf16(a) + utf16(b),
        (c as u32) < 65536 ==> utf16(seq![c]).len() == 1 && utf16(seq![c])[0] == c as u32,
        (c as u32) >= 65536 ==> utf16(seq![c]).len() == 2,
    decreases b.len(),
{
    let none = Seq::<char>::empty();
    assert(utf16(none) =~= Seq::empty());
    assert(seq![c].drop_last() =~= none);
    assert(utf16(seq![c]) =~= utf16_units(c));
    if b.len() == 0 {
        assert(a + b =~= a);
        assert(utf16(a) + utf16(b) =~= utf16(a));
    } else {
        law_wide_text_in_order(a, b.drop_last(), c);
        assert((a + b).drop_last() =~= a + b.drop_last());
        assert(utf16(a + b) =~= utf16(a) + utf16(b));
    }
}

/// A place is told by its file and its line, whole, and a crash by its message and its
/// place, whole.
pub proof fn law_crash_is_told_whole(
    file: Seq<char>,
    line: nat,
    message: Seq<char>,
    location: Seq<char>,
)
    ensures
        location_text(file, line).take(file.len() as int) == file,
        location_text(file, line)[file.len() as int] == ':',
        location_text(file, line).skip(file.len() as int + 1) == text::decimal(line),
        crash_message(message, location).take(message.len() as int) == message,
        crash_message(message, location).subrange(
            message.len() as int + 4,
            message.len() as int + 4 + location.len() as int,
        ) == location,
{
    reveal_strlit(":");
    reveal_strlit("\nat ");
    let m = message.len() as int;
    let f = file.len() as int;
    assert(location_text(file, line).take(f) =~= file);
    assert(location_text(file, line).skip(f + 1) =~= text::decimal(line));
    assert(crash_message(message, location).take(m) =~= message);
    assert(crash_message(message, location).subrange(m + 4, m + 4 + location.len() as int)
        =~= location);
}

}
