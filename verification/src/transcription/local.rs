//! The local Whisper model: what goes into a run and what comes out of it.
//!
//! Loading the model and running it is left to the caller.

use crate::text;
use crate::transcription::{ErrorView, TranscribeError};
use vstd::prelude::*;

verus! {

/// The language of the speech.
pub const LANGUAGE: &'static str = "en";

/// The number of threads for a number that can run at once.
pub open spec fn threads(available: Option<usize>) -> int {
    match available {
        Some(n) => if n < 8 {
            n as int
        } else {
            8
        },
        None => 4,
    }
}

/// How many threads a run uses, given how many can run at once where that is
/// known: all of them, but no more than eight, and four where it is not known.
pub fn thread_count(available: Option<usize>) -> (res: i32)
    ensures
        res == match available {
            Some(n) => if n < 8 {
                n as int
            } else {
                8
            },
            None => 4,
        },
        res == threads(available),
{
    match available {
        Some(n) => {
            if n < 8 {
                n as i32
            } else {
                8
            }
        },
        None => 4,
    }
}

/// The segments of a run joined and trimmed.
pub open spec fn joined(segments: Seq<Seq<char>>) -> Seq<char> {
    text::trimmed(text::concat(segments))
}

/// Joins the segments of a run into one trimmed transcript.
pub fn concat_segments(segments: &[String]) -> (res: String)
    ensures
        res@ == joined(text::views(segments@)),
{
    text::trim(text::concat_strings(segments).as_str())
}

/// The error for a model path that is no valid text.
pub fn path_not_utf8() -> (res: TranscribeError)
    ensures
        res@ == ErrorView::Local("model path is not valid UTF-8"@),
{
    TranscribeError::Local("model path is not valid UTF-8".to_owned())
}

/// The error for a model that could not be loaded.
pub fn load_failed(detail: &str) -> (res: TranscribeError)
    ensures
        res@ == ErrorView::Local("failed to load model: "@ + detail@),
{
    let mut m = "failed to load model: ".to_owned();
    m.append(detail);
    TranscribeError::Local(m)
}

/// The error of the first segment that could not be read, if there is one.
pub open spec fn first_failure(segments: Seq<Result<String, String>>) -> Option<Seq<char>>
    decreases segments.len(),
{
    if segments.len() == 0 {
        None
    } else {
        match first_failure(segments.drop_last()) {
            Some(m) => Some(m),
            None => match segments.last() {
                Ok(_) => None,
                Err(m) => Some(m@),
            },
        }
    }
}

/// The texts of segments that could all be read.
pub open spec fn segment_texts(segments: Seq<Result<String, String>>) -> Seq<Seq<char>> {
    segments.map_values(
        |s: Result<String, String>|
            match s {
                Ok(t) => t@,
                Err(_) => Seq::empty(),
            },
    )
}

/// The transcript of a run. It fails with the first error there was: of the run
/// itself, else of the first segment that could not be read.
pub fn transcript(run: Result<(), String>, segments: &Vec<Result<String, String>>) -> (res: Result<
    String,
    TranscribeError,
>)
    ensures
        match run {
            Err(m) => res matches Err(e) && e@ == ErrorView::Local(m@),
            Ok(()) => match first_failure(segments@) {
                Some(m) => res matches Err(e) && e@ == ErrorView::Local(m),
                None => res matches Ok(t) && t@ == joined(segment_texts(segments@)),
            },
        },
{
    match run {
        Err(m) => return Err(TranscribeError::Local(m)),
        Ok(()) => {},
    }
    let mut texts: Vec<String> = Vec::new();
    let mut i: usize = 0;
    proof {
        assert(text::views(texts@) =~= segment_texts(segments@.take(0)));
    }
    while i < segments.len()
        invariant
            run is Ok,
            i <= segments@.len(),
            first_failure(segments@.take(i as int)) is None,
            text::views(texts@) == segment_texts(segments@.take(i as int)),
        decreases segments@.len() - i,
    {
        proof {
            assert(segments@.take(i + 1).drop_last() =~= segments@.take(i as int));
            lemma_first_failure_prefix(segments@, i + 1);
        }
        let ghost before = texts@;
        match &segments[i] {
            Ok(t) => {
                texts.push(t.clone());
                proof {
                    assert(text::views(texts@) =~= text::views(before).push(t@));
                    assert(segment_texts(segments@.take(i + 1)) =~= segment_texts(
                        segments@.take(i as int),
                    ).push(t@));
                }
            },
            Err(m) => return Err(TranscribeError::Local(m.clone())),
        }
        i = i + 1;
    }
    proof {
        assert(segments@.take(i as int) =~= segments@);
    }
    Ok(concat_segments(texts.as_slice()))
}

proof fn lemma_first_failure_prefix(segments: Seq<Result<String, String>>, i: int)
    requires
        0 <= i <= segments.len(),
    ensures
        first_failure(segments.take(i)) is Some ==> first_failure(segments) == first_failure(
            segments.take(i),
        ),
    decreases segments.len() - i,
{
    if i < segments.len() {
        lemma_first_failure_prefix(segments, i + 1);
        assert(segments.take(i + 1).drop_last() =~= segments.take(i));
    } else {
        assert(segments.take(i) =~= segments);
    }
}

/// The failure that counts is the first one: the segment at `i` if it failed and all
/// before it could be read, and none if all could.
pub proof fn law_first_failed_segment_counts(segments: Seq<Result<String, String>>, i: int)
    requires
        0 <= i <= segments.len(),
        forall|j: int| 0 <= j < i ==> (#[trigger] segments[j]) is Ok,
    ensures
        i == segments.len() ==> first_failure(segments) is None,
        i < segments.len() ==> (segments[i] matches Err(m) ==> first_failure(segments) == Some(m@)),
{
    lemma_no_failure_before(segments, i);
    if i < segments.len() {
        let upto = segments.take(i + 1);
        assert(upto.drop_last() =~= segments.take(i));
        lemma_first_failure_prefix(segments, i + 1);
    } else {
        assert(segments.take(i) =~= segments);
    }
}

proof fn lemma_no_failure_before(segments: Seq<Result<String, String>>, i: int)
    requires
        0 <= i <= segments.len(),
        forall|j: int| 0 <= j < i ==> (#[trigger] segments[j]) is Ok,
    ensures
        first_failure(segments.take(i)) is None,
    decreases i,
{
    if i > 0 {
        lemma_no_failure_before(segments, i - 1);
        assert(segments.take(i).drop_last() =~= segments.take(i - 1));
        assert(segments.take(i).last() == segments[i - 1]);
    }
}

/// The text of every segment that could be read counts, whole and in its place.
pub proof fn law_segments_keep_their_place(segments: Seq<Result<String, String>>, i: int)
    requires
        0 <= i < segments.len(),
    ensures
        segment_texts(segments).len() == segments.len(),
        segments[i] matches Ok(t) ==> segment_texts(segments)[i] == t@,
{
}

/// A transcript is the segments one after the other, without white space at its
/// ends: a range of their join with only white space around it.
pub proof fn law_transcript_is_the_segments_in_order(a: Seq<Seq<char>>, b: Seq<Seq<char>>) -> (
    range: (int, int))
    ensures
        text::concat(a + b) == text::concat(a) + text::concat(b),
        0 <= range.0 <= range.1 <= text::concat(a + b).len(),
        joined(a + b) == text::concat(a + b).subrange(range.0, range.1),
        forall|i: int|
            0 <= i < text::concat(a + b).len() && !(range.0 <= i < range.1) ==> text::is_white(
                #[trigger] text::concat(a + b)[i],
            ),
{
    text::law_concat_in_order(a, b, Seq::empty());
    text::law_trim_cuts_white_space(text::concat(a + b))
}

/// A run uses as many threads as can run at once, up to eight, and four where that is
/// not known.
pub proof fn law_threads_are_bounded(n: usize)
    ensures
        threads(Some(n)) <= 8,
        threads(Some(n)) <= n,
        threads(Some(n)) == n || threads(Some(n)) == 8,
        threads(None) == 4,
{
}

}
