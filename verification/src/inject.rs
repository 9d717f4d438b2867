//! Typing a transcript into the focused window.
//!
//! A transcript comes from outside, and the focused window may be a terminal:
//! what is typed must hold no character that a terminal acts on. [`sanitize`]
//! removes those, and [`inject_plan`] cuts the rest into chunks with a pause
//! between them, so that a slow window keeps up. [`Injection`] carries a plan out,
//! one action at a time, and ends it at the first failure.

use crate::text;
use vstd::prelude::*;

verus! {

/// How many characters are typed at once.
pub const CHUNK_CHARS: usize = 64;

/// The pause between two chunks, in milliseconds.
pub const INTER_CHUNK_DELAY_MS: u64 = 10;

/// Why a transcript could not be typed.
#[derive(Debug)]
pub enum InjectError {
    /// The input backend could not be set up.
    Init(String),
    /// A chunk could not be typed.
    Type(String),
}

/// What an [`InjectError`] holds.
pub enum InjectErrorView {
    Init(Seq<char>),
    Type(Seq<char>),
}

impl View for InjectError {
    type V = InjectErrorView;

    open spec fn view(&self) -> InjectErrorView {
        match self {
            InjectError::Init(e) => InjectErrorView::Init(e@),
            InjectError::Type(e) => InjectErrorView::Type(e@),
        }
    }
}

impl InjectError {
    pub open spec fn spec_message(self) -> Seq<char> {
        match self {
            InjectError::Init(e) => "failed to initialize the input backend: "@ + e@,
            InjectError::Type(e) => "failed to type text: "@ + e@,
        }
    }

    /// The error in words.
    pub fn message(&self) -> (res: String)
        ensures
            res@ == self.spec_message(),
    {
        match self {
            InjectError::Init(e) => {
                let mut m = "failed to initialize the input backend: ".to_owned();
                m.append(e.as_str());
                m
            },
            InjectError::Type(e) => {
                let mut m = "failed to type text: ".to_owned();
                m.append(e.as_str());
                m
            },
        }
    }
}

/// Whether a character may be typed: it is neither below the space nor the
/// delete character.
pub open spec fn is_typable(c: char) -> bool {
    c as u32 >= 0x20 && c != '\u{7f}'
}

/// `s` without the characters that may not be typed.
pub open spec fn sanitized(s: Seq<char>) -> Seq<char> {
    s.filter(|c: char| is_typable(c))
}

/// Removes the control characters from `text` and keeps everything else in its
/// order.
pub fn sanitize(text: &str) -> (res: String)
    ensures
        res@ == sanitized(text@),
{
    let mut out = String::new();
    for c in it: text.chars()
        invariant
            it.seq() == text@,
            out@ == sanitized(text@.take(it.index())),
    {
        proof {
            assert(text@.take(it.index() + 1) =~= text@.take(it.index()).push(c));
            lemma_sanitized_push(text@.take(it.index()), c);
        }
        if c as u32 >= 0x20 && c != '\u{7f}' {
            out.push(c);
        }
    }
    proof {
        assert(text@.take(text@.len() as int) =~= text@);
    }
    out
}

proof fn lemma_sanitized_push(s: Seq<char>, c: char)
    ensures
        sanitized(s.push(c)) == if is_typable(c) {
            sanitized(s).push(c)
        } else {
            sanitized(s)
        },
{
    reveal(Seq::filter);
    assert(s.push(c).drop_last() =~= s);
}

/// `s` cut into pieces of `n` characters, the last of them possibly shorter.
pub open spec fn chunked(s: Seq<char>, n: nat) -> Seq<Seq<char>>
    decreases s.len(),
{
    if s.len() == 0 || n == 0 {
        Seq::empty()
    } else if s.len() <= n {
        seq![s]
    } else {
        seq![s.take(n as int)] + chunked(s.skip(n as int), n)
    }
}

/// The chunk size in force: at least one character.
pub open spec fn chunk_size(max_chars: usize) -> nat {
    if max_chars == 0 {
        1
    } else {
        max_chars as nat
    }
}

/// Cuts `text` into chunks of at most `max_chars` characters. No text, no
/// chunks.
pub fn chunk_text(text: &str, max_chars: usize) -> (res: Vec<String>)
    ensures
        text::views(res@) == chunked(text@, chunk_size(max_chars)),
{
    let chars = text::chars_of(text);
    let size: usize = if max_chars == 0 {
        1
    } else {
        max_chars
    };
    let mut out: Vec<String> = Vec::new();
    let mut pos: usize = 0;
    proof {
        assert(text@.skip(0) =~= text@);
        assert(text::views(out@) + chunked(text@, size as nat) =~= chunked(text@, size as nat));
    }
    while pos < chars.len()
        invariant
            chars@ == text@,
            size == chunk_size(max_chars),
            pos <= chars@.len(),
            text::views(out@) + chunked(text@.skip(pos as int), size as nat) == chunked(
                text@,
                size as nat,
            ),
        decreases chars@.len() - pos,
    {
        let end: usize = if chars.len() - pos <= size {
            chars.len()
        } else {
            pos + size
        };
        let piece = text::string_of(chars.as_slice(), pos, end);
        let ghost rest = text@.skip(pos as int);
        let ghost before = out@;
        out.push(piece);
        proof {
            assert(text::views(out@) =~= text::views(before).push(piece@));
            assert(text@.skip(end as int) =~= rest.skip(end - pos));
            if rest.len() <= size {
                assert(piece@ =~= rest);
                assert(chunked(text@.skip(end as int), size as nat) =~= Seq::empty());
            } else {
                assert(piece@ =~= rest.take(size as int));
            }
            assert(text::views(out@) + chunked(text@.skip(end as int), size as nat) =~= text::views(
                before,
            ) + chunked(rest, size as nat));
        }
        pos = end;
    }
    proof {
        assert(chunked(text@.skip(pos as int), size as nat) =~= Seq::empty());
        assert(text::views(out@) + Seq::empty() =~= text::views(out@));
    }
    out
}

/// One thing to do when a transcript is typed.
#[derive(Debug)]
pub enum InjectStep {
    /// Type this text.
    Type(String),
    /// Wait this many milliseconds.
    Pause(u64),
}

/// What an [`InjectStep`] holds.
pub enum StepView {
    Type(Seq<char>),
    Pause(u64),
}

impl View for InjectStep {
    type V = StepView;

    open spec fn view(&self) -> StepView {
        match self {
            InjectStep::Type(t) => StepView::Type(t@),
            InjectStep::Pause(ms) => StepView::Pause(*ms),
        }
    }
}

/// What a list of steps holds.
pub open spec fn step_views(steps: Seq<InjectStep>) -> Seq<StepView> {
    steps.map_values(|s: InjectStep| s@)
}

/// The chunks typed in turn, with a pause between each two.
pub open spec fn paced(chunks: Seq<Seq<char>>) -> Seq<StepView>
    decreases chunks.len(),
{
    if chunks.len() == 0 {
        Seq::empty()
    } else if chunks.len() == 1 {
        seq![StepView::Type(chunks[0])]
    } else {
        paced(chunks.drop_last()).push(StepView::Pause(INTER_CHUNK_DELAY_MS)).push(
            StepView::Type(chunks.last()),
        )
    }
}

/// The steps that type a transcript.
pub open spec fn planned(transcript: Seq<char>) -> Seq<StepView> {
    paced(chunked(sanitized(transcript), CHUNK_CHARS as nat))
}

/// What must be done to type `text`: its sanitized characters in chunks, with a
/// pause between each two. A text that sanitizes to nothing takes no step.
pub fn inject_plan(text: &str) -> (res: Vec<InjectStep>)
    ensures
        step_views(res@) == planned(text@),
{
    let cleaned = sanitize(text);
    let chunks = chunk_text(cleaned.as_str(), CHUNK_CHARS);
    let ghost all = text::views(chunks@);
    let mut steps: Vec<InjectStep> = Vec::new();
    let mut i: usize = 0;
    proof {
        assert(step_views(steps@) =~= paced(all.take(0)));
    }
    while i < chunks.len()
        invariant
            i <= chunks@.len(),
            all == text::views(chunks@),
            step_views(steps@) == paced(all.take(i as int)),
        decreases chunks@.len() - i,
    {
        let ghost before = steps@;
        if i > 0 {
            steps.push(InjectStep::Pause(INTER_CHUNK_DELAY_MS));
        }
        let ghost mid = steps@;
        steps.push(InjectStep::Type(chunks[i].clone()));
        proof {
            let next = all.take(i + 1);
            assert(next.drop_last() =~= all.take(i as int));
            assert(next.last() == chunks@[i as int]@);
            assert(step_views(steps@) =~= step_views(mid).push(StepView::Type(next.last())));
            if i > 0 {
                assert(step_views(mid) =~= step_views(before).push(
                    StepView::Pause(INTER_CHUNK_DELAY_MS),
                ));
            } else {
                assert(step_views(steps@) =~= seq![StepView::Type(next[0])]);
            }
        }
        i = i + 1;
    }
    proof {
        assert(all.take(i as int) =~= all);
    }
    steps
}

/// The text that a list of steps types.
pub open spec fn typed(steps: Seq<StepView>) -> Seq<char>
    decreases steps.len(),
{
    if steps.len() == 0 {
        Seq::empty()
    } else {
        match steps.last() {
            StepView::Type(t) => typed(steps.drop_last()) + t,
            StepView::Pause(_) => typed(steps.drop_last()),
        }
    }
}

/// Sanitizing leaves only characters that may be typed, so no newline, escape,
/// tab or NUL.
pub proof fn law_sanitized_is_typable(s: Seq<char>)
    ensures
        forall|i: int| 0 <= i < sanitized(s).len() ==> is_typable(#[trigger] sanitized(s)[i]),
        !sanitized(s).contains('\n'),
        !sanitized(s).contains('\r'),
        !sanitized(s).contains('\t'),
        !sanitized(s).contains('\0'),
        !sanitized(s).contains('\u{1b}'),
{
    let keep = |c: char| is_typable(c);
    assert forall|i: int| 0 <= i < sanitized(s).len() implies is_typable(
        #[trigger] sanitized(s)[i],
    ) by {
        s.lemma_filter_pred(keep, i);
        assert(keep(sanitized(s)[i]));
    }
}

/// A text whose characters may all be typed is left as it is.
pub proof fn law_sanitize_keeps_typable_text(s: Seq<char>)
    requires
        forall|i: int| 0 <= i < s.len() ==> is_typable(#[trigger] s[i]),
    ensures
        sanitized(s) == s,
    decreases s.len(),
{
    if s.len() > 0 {
        let init = s.drop_last();
        assert forall|i: int| 0 <= i < init.len() implies is_typable(#[trigger] init[i]) by {
            assert(init[i] == s[i]);
        }
        law_sanitize_keeps_typable_text(init);
        lemma_sanitized_push(init, s.last());
        assert(init.push(s.last()) =~= s);
    } else {
        reveal(Seq::filter);
    }
}

/// Sanitizing a second time changes nothing.
pub proof fn law_sanitize_is_idempotent(s: Seq<char>)
    ensures
        sanitized(sanitized(s)) == sanitized(s),
{
    law_sanitized_is_typable(s);
    law_sanitize_keeps_typable_text(sanitized(s));
}

/// Sanitizing looks at one character at a time: nothing moves from one part of a
/// text to another.
pub proof fn law_sanitize_distributes(a: Seq<char>, b: Seq<char>)
    ensures
        sanitized(a + b) == sanitized(a) + sanitized(b),
{
    Seq::filter_distributes_over_add(a, b, |c: char| is_typable(c));
}

proof fn lemma_concat_front(first: Seq<char>, rest: Seq<Seq<char>>)
    ensures
        text::concat(seq![first] + rest) == first + text::concat(rest),
    decreases rest.len(),
{
    let whole = seq![first] + rest;
    if rest.len() == 0 {
        assert(whole.drop_last() =~= Seq::empty());
        assert(text::concat(whole.drop_last()) =~= Seq::empty());
        assert(text::concat(whole) =~= first + text::concat(rest));
    } else {
        assert(whole.drop_last() =~= seq![first] + rest.drop_last());
        lemma_concat_front(first, rest.drop_last());
        assert(text::concat(whole) =~= first + text::concat(rest));
    }
}

/// Chunking loses nothing and changes no order: the chunks, one after the other,
/// are the text.
pub proof fn law_chunks_rejoin(s: Seq<char>, n: nat)
    requires
        n > 0,
    ensures
        text::concat(chunked(s, n)) == s,
    decreases s.len(),
{
    if s.len() == 0 {
        assert(text::concat(chunked(s, n)) =~= s);
    } else if s.len() <= n {
        lemma_concat_front(s, Seq::empty());
        assert(seq![s] + Seq::<Seq<char>>::empty() =~= seq![s]);
        assert(s + text::concat(Seq::empty()) =~= s);
    } else {
        law_chunks_rejoin(s.skip(n as int), n);
        lemma_concat_front(s.take(n as int), chunked(s.skip(n as int), n));
        assert(s.take(n as int) + s.skip(n as int) =~= s);
    }
}

/// Every chunk but the last has `n` characters; the last has at least one and at
/// most `n`.
pub proof fn law_chunk_lengths(s: Seq<char>, n: nat, i: int)
    requires
        n > 0,
        0 <= i < chunked(s, n).len(),
    ensures
        1 <= chunked(s, n)[i].len() <= n,
        i + 1 < chunked(s, n).len() ==> chunked(s, n)[i].len() == n,
    decreases s.len(),
{
    if s.len() > n && i > 0 {
        law_chunk_lengths(s.skip(n as int), n, i - 1);
    }
}

/// The number of chunks is the length divided by the chunk size, rounded up.
pub proof fn law_chunk_count(s: Seq<char>, n: nat)
    requires
        n > 0,
    ensures
        chunked(s, n).len() == (s.len() + n - 1) / (n as int),
    decreases s.len(),
{
    if s.len() == 0 {
        assert((n - 1) / (n as int) == 0) by (nonlinear_arith)
            requires
                n > 0,
        ;
    } else if s.len() <= n {
        let m = s.len() + n - 1;
        assert(m / (n as int) == 1) by (nonlinear_arith)
            requires
                n as int <= m < 2 * n,
        ;
    } else {
        law_chunk_count(s.skip(n as int), n);
        let m = s.len() - 1;
        assert((m + n) / (n as int) == m / (n as int) + 1) by (nonlinear_arith)
            requires
                n > 0,
                m >= 0,
        ;
    }
}

proof fn lemma_typed_paced(chunks: Seq<Seq<char>>)
    ensures
        typed(paced(chunks)) == text::concat(chunks),
    decreases chunks.len(),
{
    if chunks.len() == 0 {
    } else if chunks.len() == 1 {
        let steps = paced(chunks);
        assert(steps.drop_last() =~= Seq::empty());
        assert(typed(steps.drop_last()) =~= Seq::empty());
        assert(chunks.drop_last() =~= Seq::empty());
        assert(text::concat(chunks.drop_last()) =~= Seq::empty());
        assert(typed(steps) =~= text::concat(chunks));
    } else {
        lemma_typed_paced(chunks.drop_last());
        let init = paced(chunks.drop_last());
        let mid = init.push(StepView::Pause(INTER_CHUNK_DELAY_MS));
        let steps = mid.push(StepView::Type(chunks.last()));
        assert(steps.drop_last() =~= mid);
        assert(mid.drop_last() =~= init);
        assert(typed(mid) == typed(init));
    }
}

/// What is typed of a transcript is the sanitized transcript, whole and in
/// order.
pub proof fn law_plan_types_the_sanitized_text(transcript: Seq<char>)
    ensures
        typed(planned(transcript)) == sanitized(transcript),
{
    lemma_typed_paced(chunked(sanitized(transcript), CHUNK_CHARS as nat));
    law_chunks_rejoin(sanitized(transcript), CHUNK_CHARS as nat);
}

/// A plan starts and ends with typing, never with a pause, and is empty exactly
/// where the transcript sanitizes to nothing.
pub proof fn law_plan_starts_and_ends_with_typing(transcript: Seq<char>)
    ensures
        planned(transcript).len() == 0 <==> sanitized(transcript).len() == 0,
        planned(transcript).len() > 0 ==> planned(transcript).first() is Type && planned(
            transcript,
        ).last() is Type,
{
    lemma_paced_ends(chunked(sanitized(transcript), CHUNK_CHARS as nat));
}

proof fn lemma_paced_ends(chunks: Seq<Seq<char>>)
    ensures
        chunks.len() == 0 <==> paced(chunks).len() == 0,
        chunks.len() > 0 ==> paced(chunks).first() is Type && paced(chunks).last() is Type,
    decreases chunks.len(),
{
    if chunks.len() > 1 {
        lemma_paced_ends(chunks.drop_last());
    }
}

/// Something to be done while a plan is carried out.
#[derive(Debug)]
pub enum InjectAction {
    /// Set up the input backend.
    Create,
    /// Type this text.
    Type(String),
    /// Wait this many milliseconds.
    Pause(u64),
    /// Nothing more: this is what came of it.
    Finish(Result<(), InjectError>),
}

/// What an [`InjectAction`] holds.
pub enum ActionView {
    Create,
    Type(Seq<char>),
    Pause(u64),
    Finish(Result<(), InjectErrorView>),
}

impl View for InjectAction {
    type V = ActionView;

    open spec fn view(&self) -> ActionView {
        match self {
            InjectAction::Create => ActionView::Create,
            InjectAction::Type(t) => ActionView::Type(t@),
            InjectAction::Pause(ms) => ActionView::Pause(*ms),
            InjectAction::Finish(Ok(_)) => ActionView::Finish(Ok(())),
            InjectAction::Finish(Err(e)) => ActionView::Finish(Err(e@)),
        }
    }
}

/// The action that carries out a step.
pub open spec fn action_of(step: StepView) -> ActionView {
    match step {
        StepView::Type(t) => ActionView::Type(t),
        StepView::Pause(ms) => ActionView::Pause(ms),
    }
}

/// What the caller reports of an action.
pub open spec fn reply_view(reply: Result<(), String>) -> Result<(), Seq<char>> {
    match reply {
        Ok(_) => Ok(()),
        Err(m) => Err(m@),
    }
}

/// How far a plan has been carried out.
enum Progress {
    Create,
    Step(usize),
    Ended,
}

/// A plan that is being carried out.
pub struct Injection {
    steps: Vec<InjectStep>,
    progress: Progress,
}

/// The action of an [`Injection`] that awaits its reply.
pub enum Stage {
    /// The input backend is being set up.
    Create,
    /// The step with this index is being carried out.
    Step(int),
    /// None.
    Ended,
}

/// What an [`Injection`] holds.
pub struct InjectionView {
    pub steps: Seq<StepView>,
    pub stage: Stage,
}

impl View for Injection {
    type V = InjectionView;

    closed spec fn view(&self) -> InjectionView {
        InjectionView {
            steps: step_views(self.steps@),
            stage: match self.progress {
                Progress::Create => Stage::Create,
                Progress::Step(i) => Stage::Step(i as int),
                Progress::Ended => Stage::Ended,
            },
        }
    }
}

impl InjectionView {
    /// A plan at its beginning, and the first action. Where there is no step, no
    /// input backend is set up.
    pub open spec fn begun(steps: Seq<StepView>) -> (InjectionView, ActionView) {
        if steps.len() == 0 {
            (InjectionView { steps, stage: Stage::Ended }, ActionView::Finish(Ok(())))
        } else {
            (InjectionView { steps, stage: Stage::Create }, ActionView::Create)
        }
    }

    /// The plan goes on with the step at `i`, or has come to its end.
    pub open spec fn at(self, i: int) -> (InjectionView, ActionView) {
        if i < self.steps.len() {
            (InjectionView { stage: Stage::Step(i), ..self }, action_of(self.steps[i]))
        } else {
            self.ended(Ok(()))
        }
    }

    pub open spec fn ended(self, outcome: Result<(), InjectErrorView>) -> (
        InjectionView,
        ActionView,
    ) {
        (InjectionView { stage: Stage::Ended, ..self }, ActionView::Finish(outcome))
    }

    /// The plan after the reply to its last action, and the next action. A failure
    /// to set up the backend or to type ends it; a pause cannot fail.
    pub open spec fn advanced(self, reply: Result<(), Seq<char>>) -> (InjectionView, ActionView) {
        match self.stage {
            Stage::Create => match reply {
                Ok(_) => self.at(0),
                Err(m) => self.ended(Err(InjectErrorView::Init(m))),
            },
            Stage::Step(i) => if self.steps[i] is Type && reply is Err {
                self.ended(Err(InjectErrorView::Type(reply->Err_0)))
            } else {
                self.at(i + 1)
            },
            Stage::Ended => self.ended(Ok(())),
        }
    }
}

impl Injection {
    #[verifier::type_invariant]
    spec fn step_is_there(self) -> bool {
        match self.progress {
            Progress::Create => self.steps@.len() > 0,
            Progress::Step(i) => i < self.steps@.len(),
            Progress::Ended => true,
        }
    }

    /// Begins to carry out a plan.
    pub fn begin(steps: Vec<InjectStep>) -> (res: (Injection, InjectAction))
        ensures
            (res.0@, res.1@) == InjectionView::begun(step_views(steps@)),
    {
        if steps.len() == 0 {
            (Injection { steps, progress: Progress::Ended }, InjectAction::Finish(Ok(())))
        } else {
            (Injection { steps, progress: Progress::Create }, InjectAction::Create)
        }
    }

    fn go_to(&mut self, i: usize) -> (res: InjectAction)
        ensures
            (final(self)@, res@) == old(self)@.at(i as int),
    {
        if i < self.steps.len() {
            let action = match &self.steps[i] {
                InjectStep::Type(t) => InjectAction::Type(t.clone()),
                InjectStep::Pause(ms) => InjectAction::Pause(*ms),
            };
            self.progress = Progress::Step(i);
            action
        } else {
            self.progress = Progress::Ended;
            InjectAction::Finish(Ok(()))
        }
    }

    /// Takes the reply to the last action and says what to do next.
    pub fn advance(&mut self, reply: Result<(), String>) -> (res: InjectAction)
        requires
            !(old(self)@.stage is Ended),
        ensures
            (final(self)@, res@) == old(self)@.advanced(reply_view(reply)),
    {
        proof {
            use_type_invariant(&*self);
        }
        let count: usize = self.steps.len();
        match self.progress {
            Progress::Create => match reply {
                Ok(()) => self.go_to(0),
                Err(m) => {
                    self.progress = Progress::Ended;
                    InjectAction::Finish(Err(InjectError::Init(m)))
                },
            },
            Progress::Step(i) => {
                assert(i < count);
                let typing = match &self.steps[i] {
                    InjectStep::Type(_) => true,
                    InjectStep::Pause(_) => false,
                };
                match reply {
                    Err(m) if typing => {
                        self.progress = Progress::Ended;
                        InjectAction::Finish(Err(InjectError::Type(m)))
                    },
                    _ => self.go_to(i + 1),
                }
            },
            Progress::Ended => InjectAction::Finish(Ok(())),
        }
    }
}

/// A plan after a list of replies.
pub open spec fn after_replies(
    steps: Seq<StepView>,
    replies: Seq<Result<(), Seq<char>>>,
) -> InjectionView
    decreases replies.len(),
{
    if replies.len() == 0 {
        InjectionView::begun(steps).0
    } else {
        let before = after_replies(steps, replies.drop_last());
        if before.stage is Ended {
            before
        } else {
            before.advanced(replies.last()).0
        }
    }
}

/// The actions of a plan over a list of replies, up to its end.
pub open spec fn actions(
    steps: Seq<StepView>,
    replies: Seq<Result<(), Seq<char>>>,
) -> Seq<ActionView>
    decreases replies.len(),
{
    if replies.len() == 0 {
        seq![InjectionView::begun(steps).1]
    } else {
        let before = after_replies(steps, replies.drop_last());
        let earlier = actions(steps, replies.drop_last());
        if before.stage is Ended {
            earlier
        } else {
            earlier.push(before.advanced(replies.last()).1)
        }
    }
}

/// Whether the reply at `i` is a failure that ends the plan: the first one is about
/// the input backend, each later one about the step before it.
pub open spec fn fails_at(
    steps: Seq<StepView>,
    replies: Seq<Result<(), Seq<char>>>,
    i: int,
) -> bool {
    &&& 0 <= i < replies.len()
    &&& i <= steps.len()
    &&& replies[i] is Err
    &&& i > 0 ==> steps[i - 1] is Type
}

/// The actions that set up the backend and carry out the first `n` steps.
pub open spec fn actions_up_to(steps: Seq<StepView>, n: int) -> Seq<ActionView> {
    seq![ActionView::Create] + Seq::new(n as nat, |i: int| action_of(steps[i]))
}

/// The error of the failure at `i`.
pub open spec fn failure_at(replies: Seq<Result<(), Seq<char>>>, i: int) -> InjectErrorView {
    if i == 0 {
        InjectErrorView::Init(replies[i]->Err_0)
    } else {
        InjectErrorView::Type(replies[i]->Err_0)
    }
}

proof fn lemma_actions_without_failure(
    steps: Seq<StepView>,
    replies: Seq<Result<(), Seq<char>>>,
)
    requires
        steps.len() > 0,
        replies.len() <= steps.len(),
        forall|i: int| !fails_at(steps, replies, i),
    ensures
        after_replies(steps, replies) == (InjectionView {
            steps,
            stage: if replies.len() == 0 {
                Stage::Create
            } else {
                Stage::Step(replies.len() - 1)
            },
        }),
        actions(steps, replies) == actions_up_to(steps, replies.len() as int),
    decreases replies.len(),
{
    let n = replies.len() as int;
    if n > 0 {
        let init = replies.drop_last();
        assert forall|i: int| !fails_at(steps, init, i) by {
            assert(!fails_at(steps, replies, i));
        }
        lemma_actions_without_failure(steps, init);
        assert(!fails_at(steps, replies, n - 1));
        assert(actions(steps, replies) =~= actions_up_to(steps, n));
    } else {
        assert(actions(steps, replies) =~= actions_up_to(steps, 0));
    }
}

proof fn lemma_ended_stays(
    steps: Seq<StepView>,
    replies: Seq<Result<(), Seq<char>>>,
    n: int,
)
    requires
        0 <= n <= replies.len(),
        after_replies(steps, replies.take(n)).stage is Ended,
    ensures
        after_replies(steps, replies) == after_replies(steps, replies.take(n)),
        actions(steps, replies) == actions(steps, replies.take(n)),
    decreases replies.len(),
{
    if n < replies.len() {
        assert(replies.drop_last().take(n) =~= replies.take(n));
        lemma_ended_stays(steps, replies.drop_last(), n);
    } else {
        assert(replies.take(n) =~= replies);
    }
}

/// Where there is nothing to type, nothing is done: no input backend is set up,
/// and the outcome is a success.
pub proof fn law_nothing_to_type_does_nothing(
    transcript: Seq<char>,
    replies: Seq<Result<(), Seq<char>>>,
)
    requires
        sanitized(transcript).len() == 0,
    ensures
        actions(planned(transcript), replies) == seq![ActionView::Finish(Ok(()))],
{
    law_plan_starts_and_ends_with_typing(transcript);
    lemma_ended_stays(planned(transcript), replies, 0);
}

/// The first failure ends the plan: what was done is the steps up to the one that
/// failed, nothing is typed after it, and the outcome is its error, which is
/// `Init` where the backend could not be set up, and then nothing was typed at all,
/// and `Type` where a chunk could not be typed.
pub proof fn law_first_failure_ends_the_typing(
    steps: Seq<StepView>,
    replies: Seq<Result<(), Seq<char>>>,
    at: int,
)
    requires
        steps.len() > 0,
        fails_at(steps, replies, at),
        forall|i: int| i < at ==> !fails_at(steps, replies, i),
    ensures
        after_replies(steps, replies).stage is Ended,
        actions(steps, replies) == actions_up_to(steps, at).push(
            ActionView::Finish(Err(failure_at(replies, at))),
        ),
        actions(steps, replies).len() == at + 2,
        actions(steps, replies).first() is Create,
        actions(steps, replies).last() == ActionView::Finish(
            if at == 0 {
                Err(InjectErrorView::Init(replies[0]->Err_0))
            } else {
                Err(InjectErrorView::Type(replies[at]->Err_0))
            },
        ),
        forall|i: int|
            0 <= i < at ==> (match steps[i] {
                StepView::Type(t) => #[trigger] actions(steps, replies)[i + 1] == ActionView::Type(
                    t,
                ),
                StepView::Pause(ms) => actions(steps, replies)[i + 1] == ActionView::Pause(ms),
            }),
{
    let before = replies.take(at);
    let upto = replies.take(at + 1);
    assert forall|i: int| !fails_at(steps, before, i) by {
        if fails_at(steps, before, i) {
            assert(fails_at(steps, replies, i));
        }
    }
    lemma_actions_without_failure(steps, before);
    assert(upto.drop_last() =~= before);
    assert(upto.last() == replies[at]);
    lemma_ended_stays(steps, replies, at + 1);
}

/// Where nothing fails, every step is carried out in order, and the outcome is a
/// success.
pub proof fn law_success_types_everything(
    steps: Seq<StepView>,
    replies: Seq<Result<(), Seq<char>>>,
)
    requires
        steps.len() > 0,
        replies.len() > steps.len(),
        forall|i: int| !fails_at(steps, replies, i),
    ensures
        after_replies(steps, replies).stage is Ended,
        actions(steps, replies) == actions_up_to(steps, steps.len() as int).push(
            ActionView::Finish(Ok(())),
        ),
        actions(steps, replies).len() == steps.len() + 2,
        actions(steps, replies).first() is Create,
        actions(steps, replies).last() == ActionView::Finish(Ok(())),
        forall|i: int|
            0 <= i < steps.len() ==> (match steps[i] {
                StepView::Type(t) => #[trigger] actions(steps, replies)[i + 1] == ActionView::Type(
                    t,
                ),
                StepView::Pause(ms) => actions(steps, replies)[i + 1] == ActionView::Pause(ms),
            }),
{
    let n = steps.len() as int;
    let before = replies.take(n);
    let upto = replies.take(n + 1);
    assert forall|i: int| !fails_at(steps, before, i) by {
        assert(!fails_at(steps, replies, i));
    }
    lemma_actions_without_failure(steps, before);
    assert(upto.drop_last() =~= before);
    assert(!fails_at(steps, replies, n));
    lemma_ended_stays(steps, replies, n + 1);
}

/// The texts that a list of actions hands to the input backend.
pub open spec fn handed(actions: Seq<ActionView>) -> Seq<Seq<char>>
    decreases actions.len(),
{
    if actions.len() == 0 {
        Seq::empty()
    } else {
        match actions.last() {
            ActionView::Type(t) => handed(actions.drop_last()).push(t),
            _ => handed(actions.drop_last()),
        }
    }
}

proof fn lemma_handed_prefix(actions: Seq<ActionView>, n: int)
    requires
        0 <= n <= actions.len(),
    ensures
        handed(actions.take(n)).len() <= handed(actions).len(),
        handed(actions.take(n)) == handed(actions).take(handed(actions.take(n)).len() as int),
    decreases actions.len(),
{
    if n < actions.len() {
        let init = actions.drop_last();
        lemma_handed_prefix(init, n);
        assert(init.take(n) =~= actions.take(n));
        let k = handed(init.take(n)).len() as int;
        assert(handed(actions).take(k) =~= handed(init).take(k));
    } else {
        assert(actions.take(n) =~= actions);
        assert(handed(actions).take(handed(actions).len() as int) =~= handed(actions));
    }
}

proof fn lemma_handed_paced(chunks: Seq<Seq<char>>)
    ensures
        handed(actions_up_to(paced(chunks), paced(chunks).len() as int)) == chunks,
    decreases chunks.len(),
{
    let steps = paced(chunks);
    let all = actions_up_to(steps, steps.len() as int);
    let create = seq![ActionView::Create];
    assert(create.drop_last() =~= Seq::empty());
    assert(handed(create.drop_last()) =~= Seq::empty());
    assert(handed(create) == Seq::<Seq<char>>::empty());
    if chunks.len() == 0 {
        assert(all =~= create);
        assert(handed(all) =~= chunks);
    } else if chunks.len() == 1 {
        assert(all.drop_last() =~= create);
        assert(all.last() == ActionView::Type(chunks[0]));
        assert(handed(all) =~= chunks);
    } else {
        let init = chunks.drop_last();
        lemma_handed_paced(init);
        let before = actions_up_to(paced(init), paced(init).len() as int);
        let mid = all.drop_last();
        assert(mid.drop_last() =~= before);
        assert(mid.last() is Pause);
        assert(all.last() == ActionView::Type(chunks.last()));
        assert(init.push(chunks.last()) =~= chunks);
        assert(handed(mid) == handed(mid.drop_last()));
        assert(handed(all) == handed(mid).push(chunks.last()));
    }
}

/// What is handed to the input backend of a transcript is its sanitized text in
/// chunks: all of them where nothing fails, and where something does, the first
/// ones in order, up to the one that failed.
pub proof fn law_chunks_are_typed_in_order(
    transcript: Seq<char>,
    replies: Seq<Result<(), Seq<char>>>,
)
    requires
        replies.len() > planned(transcript).len(),
    ensures
        ({
            let steps = planned(transcript);
            let chunks = chunked(sanitized(transcript), CHUNK_CHARS as nat);
            let texts = handed(actions(steps, replies));
            &&& (forall|i: int| !fails_at(steps, replies, i)) ==> texts == chunks
            &&& texts.len() <= chunks.len() && texts == chunks.take(texts.len() as int)
            &&& fails_at(steps, replies, 0) ==> texts.len() == 0
        }),
{
    let steps = planned(transcript);
    let chunks = chunked(sanitized(transcript), CHUNK_CHARS as nat);
    let n = steps.len() as int;
    let done = actions(steps, replies);
    let full = actions_up_to(steps, n);
    law_plan_starts_and_ends_with_typing(transcript);
    lemma_handed_paced(chunks);
    assert(handed(full) == chunks);
    if n == 0 {
        lemma_ended_stays(steps, replies, 0);
        assert(done.drop_last() =~= Seq::empty());
        assert(handed(done.drop_last()) =~= Seq::empty());
        assert(full.drop_last() =~= Seq::empty());
        assert(chunks.len() == 0);
        assert(chunks.take(0) =~= chunks);
        assert(handed(done) =~= chunks);
    } else if forall|i: int| !fails_at(steps, replies, i) {
        law_success_types_everything(steps, replies);
        assert(done.drop_last() =~= full);
        assert(chunks.take(chunks.len() as int) =~= chunks);
        assert(!fails_at(steps, replies, 0));
    } else {
        let some = choose|i: int| fails_at(steps, replies, i);
        let at = lemma_first_failure(steps, replies, some);
        law_first_failure_ends_the_typing(steps, replies, at);
        assert(done.drop_last() =~= full.take(at + 1));
        lemma_handed_prefix(full, at + 1);
        assert(handed(done) == handed(full.take(at + 1)));
        if fails_at(steps, replies, 0) {
            assert(at == 0);
            assert(full.take(1).drop_last() =~= Seq::empty());
            assert(handed(full.take(1).drop_last()) =~= Seq::empty());
        }
    }
}

proof fn lemma_first_failure(
    steps: Seq<StepView>,
    replies: Seq<Result<(), Seq<char>>>,
    some: int,
) -> (at: int)
    requires
        fails_at(steps, replies, some),
    ensures
        fails_at(steps, replies, at),
        forall|i: int| i < at ==> !fails_at(steps, replies, i),
    decreases some,
{
    if exists|i: int| i < some && fails_at(steps, replies, i) {
        let earlier = choose|i: int| i < some && fails_at(steps, replies, i);
        lemma_first_failure(steps, replies, earlier)
    } else {
        some
    }
}

/// A single character is kept where its code point is at least 32 and is not 127,
/// and removed otherwise; of nothing, nothing is left.
pub proof fn law_sanitize_by_code_point(c: char)
    ensures
        c as u32 >= 32 && c as u32 != 127 ==> sanitized(seq![c]) == seq![c],
        (c as u32) < 32 || c as u32 == 127 ==> sanitized(seq![c]) == Seq::<char>::empty(),
        sanitized(Seq::<char>::empty()) == Seq::<char>::empty(),
{
    reveal(Seq::filter);
    let none = Seq::<char>::empty();
    assert(sanitized(none) =~= none);
    lemma_sanitized_push(none, c);
    assert(none.push(c) =~= seq![c]);
}

/// Every character from code point 32 on, but for 127, occurs in the sanitized text
/// as often as in the text, and no other character occurs in it at all.
pub proof fn law_sanitize_keeps_every_occurrence(s: Seq<char>, c: char)
    ensures
        c as u32 >= 32 && c as u32 != 127 ==> sanitized(s).to_multiset().count(c)
            == s.to_multiset().count(c),
        (c as u32) < 32 || c as u32 == 127 ==> sanitized(s).to_multiset().count(c) == 0,
    decreases s.len(),
{
    broadcast use vstd::seq_lib::group_to_multiset_ensures;

    if s.len() == 0 {
        law_sanitize_by_code_point(c);
        assert(s =~= Seq::empty());
    } else {
        let init = s.drop_last();
        let last = s.last();
        law_sanitize_keeps_every_occurrence(init, c);
        lemma_sanitized_push(init, last);
        assert(init.push(last) =~= s);
        lemma_typable_code(last);
        lemma_typable_code(c);
    }
}

proof fn lemma_typable_code(c: char)
    ensures
        is_typable(c) <==> c as u32 >= 32 && c as u32 != 127,
{
}

/// A text without a character below code point 32 and without code point 127 is
/// typed as it is.
pub proof fn law_sanitize_keeps_ordinary_text(s: Seq<char>)
    requires
        forall|i: int| 0 <= i < s.len() ==> #[trigger] s[i] as u32 >= 32 && s[i] as u32 != 127,
    ensures
        sanitized(s) == s,
{
    assert forall|i: int| 0 <= i < s.len() implies is_typable(#[trigger] s[i]) by {
        lemma_typable_code(s[i]);
    }
    law_sanitize_keeps_typable_text(s);
}

/// The chunk at `i` is the characters from the `n * i`-th on, `n` of them or what is
/// left.
pub proof fn law_chunks_by_place(s: Seq<char>, n: nat, i: int)
    requires
        n > 0,
        0 <= i < chunked(s, n).len(),
    ensures
        0 <= n * i < s.len(),
        chunked(s, n)[i] == s.subrange(
            n * i,
            if n * i + n <= s.len() {
                n * i + n
            } else {
                s.len() as int
            },
        ),
    decreases s.len(),
{
    if i == 0 {
        assert(n * i == 0) by (nonlinear_arith)
            requires
                i == 0,
        ;
        assert(chunked(s, n)[0] =~= s.subrange(
            0,
            if n <= s.len() {
                n as int
            } else {
                s.len() as int
            },
        ));
    } else {
        let rest = s.skip(n as int);
        law_chunks_by_place(rest, n, i - 1);
        assert(n * i == n * (i - 1) + n) by (nonlinear_arith);
        let from = n * (i - 1);
        let to = if from + n <= rest.len() {
            from + n
        } else {
            rest.len() as int
        };
        assert(rest.subrange(from, to) =~= s.subrange(from + n, to + n));
        assert(chunked(s, n)[i] == chunked(rest, n)[i - 1]);
    }
}

proof fn lemma_paced_by_place(chunks: Seq<Seq<char>>)
    ensures
        chunks.len() == 0 ==> paced(chunks).len() == 0,
        chunks.len() > 0 ==> paced(chunks).len() == 2 * chunks.len() - 1,
        forall|j: int|
            0 <= j < paced(chunks).len() ==> #[trigger] paced(chunks)[j] == (if j % 2 == 0 {
                StepView::Type(chunks[j / 2])
            } else {
                StepView::Pause(10)
            }),
    decreases chunks.len(),
{
    if chunks.len() > 1 {
        let init = chunks.drop_last();
        lemma_paced_by_place(init);
        assert forall|j: int| 0 <= j < paced(chunks).len() implies #[trigger] paced(chunks)[j] == (
        if j % 2 == 0 {
            StepView::Type(chunks[j / 2])
        } else {
            StepView::Pause(10)
        }) by {
            if j < paced(init).len() {
                assert(paced(chunks)[j] == paced(init)[j]);
                assert(init[j / 2] == chunks[j / 2]);
            }
        }
    }
}

/// A plan types the sanitized text 64 characters at a time, in order, each chunk
/// but the last followed by a pause of 10 milliseconds.
pub proof fn law_plan_by_place(transcript: Seq<char>)
    ensures
        sanitized(transcript).len() == 0 ==> planned(transcript).len() == 0,
        sanitized(transcript).len() > 0 ==> planned(transcript).len() == 2 * ((sanitized(
            transcript,
        ).len() + 63) / 64) - 1,
        forall|j: int|
            0 <= j < planned(transcript).len() && j % 2 == 1 ==> #[trigger] planned(transcript)[j]
                == StepView::Pause(10),
        forall|j: int|
            0 <= j < planned(transcript).len() && j % 2 == 0 ==> #[trigger] planned(transcript)[j]
                == StepView::Type(
                sanitized(transcript).subrange(
                    32 * j,
                    if 32 * j + 64 <= sanitized(transcript).len() {
                        32 * j + 64
                    } else {
                        sanitized(transcript).len() as int
                    },
                ),
            ),
{
    let clean = sanitized(transcript);
    let chunks = chunked(clean, 64);
    lemma_paced_by_place(chunks);
    law_chunk_count(clean, 64);
    assert forall|j: int|
        0 <= j < planned(transcript).len() && j % 2 == 0 implies #[trigger] planned(transcript)[j]
        == StepView::Type(
        clean.subrange(
            32 * j,
            if 32 * j + 64 <= clean.len() {
                32 * j + 64
            } else {
                clean.len() as int
            },
        ),
    ) by {
        law_chunks_by_place(clean, 64, j / 2);
    }
}

/// A chunk size of nought counts as one, any other as itself.
pub proof fn law_chunk_size_is_at_least_one(max_chars: usize)
    ensures
        chunk_size(max_chars) >= 1,
        chunk_size(max_chars) >= max_chars,
        chunk_size(max_chars) <= 1 || chunk_size(max_chars) <= max_chars,
{
}

/// Steps, actions and errors are seen as they are: each step in its place, every
/// text character for character, every pause with its length.
pub proof fn law_steps_are_seen_whole(steps: Seq<InjectStep>, i: int)
    requires
        0 <= i < steps.len(),
    ensures
        step_views(steps).len() == steps.len(),
        steps[i] matches InjectStep::Type(t) ==> step_views(steps)[i] == StepView::Type(t@),
        steps[i] matches InjectStep::Pause(ms) ==> step_views(steps)[i] == StepView::Pause(ms),
{
}

/// An action is seen as it is.
pub proof fn law_actions_are_seen_whole(action: InjectAction)
    ensures
        action is Create <==> action@ is Create,
        action matches InjectAction::Type(t) ==> action@ == ActionView::Type(t@),
        action matches InjectAction::Pause(ms) ==> action@ == ActionView::Pause(ms),
        action matches InjectAction::Finish(Ok(_)) ==> action@ == ActionView::Finish(Ok(())),
        action matches InjectAction::Finish(Err(InjectError::Init(m))) ==> action@
            == ActionView::Finish(Err(InjectErrorView::Init(m@))),
        action matches InjectAction::Finish(Err(InjectError::Type(m))) ==> action@
            == ActionView::Finish(Err(InjectErrorView::Type(m@))),
{
}

/// An error in words ends with the detail it holds, whole, and the words before it
/// tell the two errors apart.
pub proof fn law_inject_errors_tell_the_detail(a: String, b: String)
    ensures
        InjectError::Init(a).spec_message().skip(40) == a@,
        InjectError::Type(a).spec_message().skip(21) == a@,
        InjectError::Init(a).spec_message().take(40) == InjectError::Init(b).spec_message().take(
            40,
        ),
        InjectError::Type(a).spec_message().take(21) == InjectError::Type(b).spec_message().take(
            21,
        ),
        InjectError::Init(a).spec_message() != InjectError::Type(b).spec_message(),
{
    reveal_strlit("failed to initialize the input backend: ");
    reveal_strlit("failed to type text: ");
    let i = InjectError::Init(a).spec_message();
    let t = InjectError::Type(b).spec_message();
    assert(i.skip(40) =~= a@);
    assert(InjectError::Type(a).spec_message().skip(21) =~= a@);
    assert(i.take(40) =~= InjectError::Init(b).spec_message().take(40));
    assert(InjectError::Type(a).spec_message().take(21) =~= t.take(21));
    assert(i[10] != t[10]);
}

}
