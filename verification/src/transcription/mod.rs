//! The transcription backends, which of them is active, and what can go wrong in
//! a transcription.

pub mod groq;
pub mod local;
pub mod wav;

use crate::config::{Backend, RawConfig, Secret};
use crate::text;
use vstd::prelude::*;

verus! {

/// Why a transcription failed. No variant holds the API key.
#[derive(Debug)]
pub enum TranscribeError {
    Network(String),
    Timeout,
    Auth(String),
    RateLimited { retry_after: Option<u64>, message: String },
    TooLarge(usize),
    Server(String),
    Http(u16, String),
    Decode(String),
    Encode(String),
    Local(String),
}

/// What a [`TranscribeError`] holds.
pub enum ErrorView {
    Network(Seq<char>),
    Timeout,
    Auth(Seq<char>),
    RateLimited { retry_after: Option<u64>, message: Seq<char> },
    TooLarge(usize),
    Server(Seq<char>),
    Http(u16, Seq<char>),
    Decode(Seq<char>),
    Encode(Seq<char>),
    Local(Seq<char>),
}

impl View for TranscribeError {
    type V = ErrorView;

    open spec fn view(&self) -> ErrorView {
        match self {
            TranscribeError::Network(m) => ErrorView::Network(m@),
            TranscribeError::Timeout => ErrorView::Timeout,
            TranscribeError::Auth(m) => ErrorView::Auth(m@),
            TranscribeError::RateLimited { retry_after, message } => ErrorView::RateLimited {
                retry_after: *retry_after,
                message: message@,
            },
            TranscribeError::TooLarge(n) => ErrorView::TooLarge(*n),
            TranscribeError::Server(m) => ErrorView::Server(m@),
            TranscribeError::Http(code, m) => ErrorView::Http(*code, m@),
            TranscribeError::Decode(m) => ErrorView::Decode(m@),
            TranscribeError::Encode(m) => ErrorView::Encode(m@),
            TranscribeError::Local(m) => ErrorView::Local(m@),
        }
    }
}

impl ErrorView {
    pub open spec fn spec_message(self) -> Seq<char> {
        match self {
            ErrorView::Network(m) => "network error: "@ + m,
            ErrorView::Timeout => "request timed out"@,
            ErrorView::Auth(m) => "authentication failed — check GROQ_API_KEY: "@ + m,
            ErrorView::RateLimited { retry_after, message: _ } => match retry_after {
                Some(s) => "rate limited"@ + " — retry after "@ + text::decimal(s as nat) + "s"@,
                None => "rate limited"@,
            },
            ErrorView::TooLarge(n) => "audio too large ("@ + text::decimal(n as nat)
                + " bytes)"@,
            ErrorView::Server(m) => "server error: "@ + m,
            ErrorView::Http(code, m) => "unexpected response ("@ + text::decimal(code as nat)
                + "): "@ + m,
            ErrorView::Decode(m) => "failed to decode response: "@ + m,
            ErrorView::Encode(m) => "failed to encode audio: "@ + m,
            ErrorView::Local(m) => "local model error: "@ + m,
        }
    }
}

fn labelled(label: &str, detail: &str) -> (res: String)
    ensures
        res@ == label@ + detail@,
{
    let mut m = label.to_owned();
    m.append(detail);
    m
}

impl TranscribeError {
    /// The error in words.
    pub fn message(&self) -> (res: String)
        ensures
            res@ == self@.spec_message(),
    {
        match self {
            TranscribeError::Network(m) => labelled("network error: ", m.as_str()),
            TranscribeError::Timeout => "request timed out".to_owned(),
            TranscribeError::Auth(m) => labelled(
                "authentication failed — check GROQ_API_KEY: ",
                m.as_str(),
            ),
            TranscribeError::RateLimited { retry_after, message: _ } => match retry_after {
                Some(s) => {
                    let mut m = labelled("rate limited", " — retry after ");
                    m.append(text::decimal_text(*s).as_str());
                    m.append("s");
                    m
                },
                None => "rate limited".to_owned(),
            },
            TranscribeError::TooLarge(n) => {
                let mut m = labelled(
                    "audio too large (",
                    text::decimal_text(*n as u64).as_str(),
                );
                m.append(" bytes)");
                m
            },
            TranscribeError::Server(m) => labelled("server error: ", m.as_str()),
            TranscribeError::Http(code, detail) => {
                let mut m = labelled(
                    "unexpected response (",
                    text::decimal_text(*code as u64).as_str(),
                );
                m.append("): ");
                m.append(detail.as_str());
                m
            },
            TranscribeError::Decode(m) => labelled("failed to decode response: ", m.as_str()),
            TranscribeError::Encode(m) => labelled("failed to encode audio: ", m.as_str()),
            TranscribeError::Local(m) => labelled("local model error: ", m.as_str()),
        }
    }
}

/// Why the program cannot start: no backend can be had.
#[derive(Debug, Clone, Copy, PartialEq, Eq, Structural)]
pub enum FatalError {
    GroqSelectedNoKey,
    LocalSelectedUnavailableNoFallback,
}

impl FatalError {
    pub open spec fn spec_message(self) -> Seq<char> {
        match self {
            FatalError::GroqSelectedNoKey => "BACKEND=groq but no GROQ_API_KEY is set"@,
            FatalError::LocalSelectedUnavailableNoFallback =>
                "BACKEND=local but the model could not be loaded and no GROQ_API_KEY is set to fall back to"@,
        }
    }

    /// The error in words.
    pub fn message(&self) -> (res: &'static str)
        ensures
            res@ == self.spec_message(),
    {
        match self {
            FatalError::GroqSelectedNoKey => "BACKEND=groq but no GROQ_API_KEY is set",
            FatalError::LocalSelectedUnavailableNoFallback =>
                "BACKEND=local but the model could not be loaded and no GROQ_API_KEY is set to fall back to",
        }
    }
}

/// A backend that can transcribe: a client of the hosted service, or a loaded
/// model.
pub enum ActiveBackend<G, L> {
    Groq(G),
    Local(L),
}

impl<G, L> ActiveBackend<G, L> {
    pub fn kind(&self) -> (res: Backend)
        ensures
            res == match self {
                ActiveBackend::Groq(_) => Backend::Groq,
                ActiveBackend::Local(_) => Backend::Local,
            },
    {
        match self {
            ActiveBackend::Groq(_) => Backend::Groq,
            ActiveBackend::Local(_) => Backend::Local,
        }
    }
}

/// What came of a request to switch the backend.
#[derive(Debug, Clone, Copy, PartialEq, Eq, Structural)]
pub enum SwitchOutcome {
    Switched,
    Unchanged,
    /// The target cannot be had; the active backend stays.
    Rejected,
}

/// Which backend is active at the start, and the notice that goes with it.
pub open spec fn initial_choice(desired: Backend, groq_avail: bool, local_avail: bool) -> Result<
    (Backend, Option<Seq<char>>),
    FatalError,
> {
    match desired {
        Backend::Groq => if groq_avail {
            Ok((Backend::Groq, None))
        } else {
            Err(FatalError::GroqSelectedNoKey)
        },
        Backend::Local => if local_avail {
            Ok((Backend::Local, None))
        } else if groq_avail {
            Ok((Backend::Groq, Some("Local model unavailable; falling back to Groq."@)))
        } else {
            Err(FatalError::LocalSelectedUnavailableNoFallback)
        },
    }
}

/// Chooses the backend to start with: the desired one, or Groq in place of a
/// local model that cannot be had.
pub fn resolve_initial(desired: Backend, groq_avail: bool, local_avail: bool) -> (res: Result<
    (Backend, Option<&'static str>),
    FatalError,
>)
    ensures
        match initial_choice(desired, groq_avail, local_avail) {
            Ok((active, notice)) => res matches Ok((a, n)) && a == active && (match notice {
                Some(text) => n matches Some(t) && t@ == text,
                None => n is None,
            }),
            Err(e) => res == Err::<(Backend, Option<&'static str>), FatalError>(e),
        },
{
    match desired {
        Backend::Groq => {
            if groq_avail {
                Ok((Backend::Groq, None))
            } else {
                Err(FatalError::GroqSelectedNoKey)
            }
        },
        Backend::Local => {
            if local_avail {
                Ok((Backend::Local, None))
            } else if groq_avail {
                Ok((Backend::Groq, Some("Local model unavailable; falling back to Groq.")))
            } else {
                Err(FatalError::LocalSelectedUnavailableNoFallback)
            }
        },
    }
}

/// What a request to switch from `active` to `to` comes to.
pub open spec fn switch_outcome(
    active: Backend,
    to: Backend,
    groq_avail: bool,
    local_avail: bool,
) -> SwitchOutcome {
    if active == to {
        SwitchOutcome::Unchanged
    } else if (to == Backend::Groq && groq_avail) || (to == Backend::Local && local_avail) {
        SwitchOutcome::Switched
    } else {
        SwitchOutcome::Rejected
    }
}

/// Decides a request to switch the backend.
pub fn resolve_switch(active: Backend, to: Backend, groq_avail: bool, local_avail: bool) -> (res:
    SwitchOutcome)
    ensures
        res == switch_outcome(active, to, groq_avail, local_avail),
{
    if active == to {
        return SwitchOutcome::Unchanged;
    }
    let target_available = match to {
        Backend::Groq => groq_avail,
        Backend::Local => local_avail,
    };
    if target_available {
        SwitchOutcome::Switched
    } else {
        SwitchOutcome::Rejected
    }
}

/// The backends that can be had, each built once, and the one in use, which is
/// always one of them.
pub struct Backends<G, L> {
    groq: Option<G>,
    local: Option<L>,
    active: Backend,
}

/// What a [`Backends`] holds.
pub struct BackendsView<G, L> {
    pub groq: Option<G>,
    pub local: Option<L>,
    pub active: Backend,
}

impl<G, L> BackendsView<G, L> {
    /// Whether a backend can be had.
    pub open spec fn has(self, backend: Backend) -> bool {
        match backend {
            Backend::Groq => self.groq is Some,
            Backend::Local => self.local is Some,
        }
    }

    /// The outcome of a request to switch to `to`.
    pub open spec fn outcome(self, to: Backend) -> SwitchOutcome {
        switch_outcome(self.active, to, self.has(Backend::Groq), self.has(Backend::Local))
    }

    /// The backends after a request to switch to `to`.
    pub open spec fn switched(self, to: Backend) -> BackendsView<G, L> {
        if self.outcome(to) == SwitchOutcome::Switched {
            BackendsView { active: to, ..self }
        } else {
            self
        }
    }
}

impl<G, L> View for Backends<G, L> {
    type V = BackendsView<G, L>;

    closed spec fn view(&self) -> BackendsView<G, L> {
        BackendsView { groq: self.groq, local: self.local, active: self.active }
    }
}

/// Whether `groq` is what `build` makes of the configured key.
pub open spec fn is_built<G, F: FnOnce(Secret) -> G>(
    raw: RawConfig,
    build: F,
    groq: Option<G>,
) -> bool {
    match raw.groq_api_key {
        Some(key) => exists|k: Secret, g: G|
            k@ == key@ && #[trigger] call_ensures(build, (k,), g) && groq == Some(g),
        None => groq is None,
    }
}

/// Whether `local` is what `load` makes of the configured model path: a model if
/// it loads, nothing if it does not.
pub open spec fn is_loaded<L, F: FnOnce(&str) -> Result<L, TranscribeError>>(
    raw: RawConfig,
    load: F,
    local: Option<L>,
) -> bool {
    match raw.whisper_model_path {
        Some(path) => exists|p: &str, r: Result<L, TranscribeError>|
            {
                &&& p@ == path@
                &&& #[trigger] call_ensures(load, (p,), r)
                &&& match r {
                    Ok(l) => local == Some(l),
                    Err(_) => local is None,
                }
            },
        None => local is None,
    }
}

/// Whether `res` is the outcome of a start with these backends at hand.
pub open spec fn is_start<G, L>(
    desired: Backend,
    groq: Option<G>,
    local: Option<L>,
    res: Result<(Backends<G, L>, Option<String>), FatalError>,
) -> bool {
    match initial_choice(desired, groq is Some, local is Some) {
        Ok((active, notice)) => {
            &&& res matches Ok((b, n))
            &&& b@ == (BackendsView { groq, local, active })
            &&& text::opt_view(n) == notice
        },
        Err(e) => res matches Err(f) && f == e,
    }
}

impl<G, L> Backends<G, L> {
    #[verifier::type_invariant]
    spec fn active_is_available(self) -> bool {
        match self.active {
            Backend::Groq => self.groq is Some,
            Backend::Local => self.local is Some,
        }
    }

    /// Starts with the backends at hand.
    pub fn start(desired: Backend, groq: Option<G>, local: Option<L>) -> (res: Result<
        (Backends<G, L>, Option<String>),
        FatalError,
    >)
        ensures
            is_start(desired, groq, local, res),
    {
        match resolve_initial(desired, groq.is_some(), local.is_some()) {
            Ok((active, notice)) => {
                let notice = match notice {
                    Some(t) => Some(t.to_owned()),
                    None => None,
                };
                Ok((Backends { groq, local, active }, notice))
            },
            Err(e) => Err(e),
        }
    }

    /// Builds the backends that the configuration allows and chooses the one to
    /// start with: a Groq client wherever there is a key, a local model where
    /// there is a path and `load_local` succeeds with it.
    pub fn initialize<FG: FnOnce(Secret) -> G, FL: FnOnce(&str) -> Result<L, TranscribeError>>(
        raw: &RawConfig,
        build_groq: FG,
        load_local: FL,
    ) -> (res: Result<(Backends<G, L>, Option<String>), FatalError>)
        requires
            forall|key: Secret| #[trigger] call_requires(build_groq, (key,)),
            forall|path: &str| #[trigger] call_requires(load_local, (path,)),
        ensures
            exists|groq: Option<G>, local: Option<L>|
                {
                    &&& is_built(*raw, build_groq, groq)
                    &&& is_loaded(*raw, load_local, local)
                    &&& #[trigger] is_start(raw.backend, groq, local, res)
                },
    {
        let groq = match &raw.groq_api_key {
            Some(key) => Some(build_groq(key.clone())),
            None => None,
        };
        let local = match &raw.whisper_model_path {
            Some(path) => match load_local(path.as_str()) {
                Ok(l) => Some(l),
                Err(_) => None,
            },
            None => None,
        };
        let ghost g = groq;
        let ghost l = local;
        let res = Backends::start(raw.backend, groq, local);
        proof {
            assert(is_built(*raw, build_groq, g));
            assert(is_loaded(*raw, load_local, l));
            assert(is_start(raw.backend, g, l, res));
        }
        res
    }

    pub fn active_kind(&self) -> (res: Backend)
        ensures
            res == self@.active,
            self@.has(res),
    {
        proof {
            use_type_invariant(self);
        }
        self.active
    }

    /// A clone of the active backend.
    pub fn current(&self) -> (res: ActiveBackend<G, L>) where G: Clone, L: Clone
        ensures
            match self@.active {
                Backend::Groq => self@.groq matches Some(g) && res matches ActiveBackend::Groq(h)
                    && cloned(g, h),
                Backend::Local => self@.local matches Some(l) && res matches ActiveBackend::Local(h)
                    && cloned(l, h),
            },
    {
        proof {
            use_type_invariant(self);
        }
        match self.active {
            Backend::Groq => ActiveBackend::Groq(self.groq.as_ref().unwrap().clone()),
            Backend::Local => ActiveBackend::Local(self.local.as_ref().unwrap().clone()),
        }
    }

    /// Switches to `to`, if it can be had.
    pub fn switch(&mut self, to: Backend) -> (res: SwitchOutcome)
        ensures
            res == old(self)@.outcome(to),
            final(self)@ == old(self)@.switched(to),
            final(self)@.has(final(self)@.active),
    {
        proof {
            use_type_invariant(&*self);
        }
        let outcome = resolve_switch(self.active, to, self.groq.is_some(), self.local.is_some());
        if outcome == SwitchOutcome::Switched {
            self.active = to;
        }
        outcome
    }
}

/// A start that succeeds starts with a backend that can be had, and falls back
/// to another than the desired one only where that one cannot be had; then, and
/// only then, there is a notice.
pub proof fn law_start_with_available_backend(
    desired: Backend,
    groq_avail: bool,
    local_avail: bool,
)
    ensures
        initial_choice(desired, groq_avail, local_avail) matches Ok((active, notice)) ==> {
            &&& active == Backend::Groq ==> groq_avail
            &&& active == Backend::Local ==> local_avail
            &&& notice is Some <==> active != desired
            &&& active != desired ==> desired == Backend::Local && !local_avail
        },
{
}

/// A start fails only where the desired backend cannot be had and Groq cannot
/// stand in for it.
pub proof fn law_start_fails_only_without_backend(
    desired: Backend,
    groq_avail: bool,
    local_avail: bool,
)
    ensures
        initial_choice(desired, groq_avail, local_avail) is Err <==> !groq_avail && (desired
            == Backend::Groq || !local_avail),
{
}

/// However often the backend is switched, the active one can be had.
pub proof fn law_switching_keeps_an_available_backend<G, L>(
    backends: BackendsView<G, L>,
    requests: Seq<Backend>,
)
    requires
        backends.has(backends.active),
    ensures
        after_switches(backends, requests).has(after_switches(backends, requests).active),
        after_switches(backends, requests).groq == backends.groq,
        after_switches(backends, requests).local == backends.local,
    decreases requests.len(),
{
    if requests.len() > 0 {
        law_switching_keeps_an_available_backend(backends, requests.drop_last());
    }
}

/// The backends after a list of requests to switch.
pub open spec fn after_switches<G, L>(
    backends: BackendsView<G, L>,
    requests: Seq<Backend>,
) -> BackendsView<G, L>
    decreases requests.len(),
{
    if requests.len() == 0 {
        backends
    } else {
        after_switches(backends, requests.drop_last()).switched(requests.last())
    }
}

/// A switch can be undone by switching back.
pub proof fn law_switch_back_restores<G, L>(backends: BackendsView<G, L>, to: Backend)
    requires
        backends.has(backends.active),
    ensures
        backends.switched(to).switched(backends.active) == backends,
{
}

/// A refused switch leaves everything as it was.
pub proof fn law_refused_switch_changes_nothing<G, L>(backends: BackendsView<G, L>, to: Backend)
    requires
        !backends.has(to),
    ensures
        backends.outcome(to) != SwitchOutcome::Switched,
        backends.switched(to) == backends,
{
}

/// Whichever backend made it, a transcript has no white space at its ends.
pub proof fn law_transcripts_are_trimmed(decoded: Seq<char>, segments: Seq<Seq<char>>)
    ensures
        text::trimmed(text::trimmed(decoded)) == text::trimmed(decoded),
        text::trimmed(local::joined(segments)) == local::joined(segments),
{
    text::law_trim_is_idempotent(decoded);
    text::law_trim_is_idempotent(text::concat(segments));
}

/// Which backend a start chooses: the desired one where it can be had, Groq in place
/// of a local model that cannot, and otherwise none.
pub proof fn law_start_by_what_can_be_had(groq_avail: bool, local_avail: bool)
    ensures
        groq_avail ==> (initial_choice(Backend::Groq, groq_avail, local_avail) matches Ok((a, n))
            && a is Groq && n is None),
        !groq_avail ==> (initial_choice(Backend::Groq, groq_avail, local_avail) matches Err(e)
            && e is GroqSelectedNoKey),
        local_avail ==> (initial_choice(Backend::Local, groq_avail, local_avail) matches Ok((a, n))
            && a is Local && n is None),
        !local_avail && groq_avail ==> (initial_choice(
            Backend::Local,
            groq_avail,
            local_avail,
        ) matches Ok((a, n)) && a is Groq && n is Some),
        !local_avail && !groq_avail ==> (initial_choice(
            Backend::Local,
            groq_avail,
            local_avail,
        ) matches Err(e) && e is LocalSelectedUnavailableNoFallback),
{
}

/// A request to switch is granted if and only if the other backend can be had; then
/// that one is in use, and otherwise the one before. What can be had stays the same.
pub proof fn law_switch_by_what_can_be_had<G, L>(backends: BackendsView<G, L>, to: Backend)
    ensures
        backends.outcome(to) is Unchanged <==> to == backends.active,
        backends.outcome(to) is Switched <==> to != backends.active && (to is Groq
            && backends.groq is Some || to is Local && backends.local is Some),
        backends.switched(to).groq == backends.groq,
        backends.switched(to).local == backends.local,
        backends.outcome(to) is Switched ==> backends.switched(to).active == to,
        !(backends.outcome(to) is Switched) ==> backends.switched(to).active == backends.active,
{
}

/// A start that succeeds keeps the backends that were at hand.
pub proof fn law_start_keeps_the_backends<G, L>(
    desired: Backend,
    groq: Option<G>,
    local: Option<L>,
    res: Result<(Backends<G, L>, Option<String>), FatalError>,
)
    requires
        is_start(desired, groq, local, res),
    ensures
        res is Err <==> groq is None && (desired is Groq || local is None),
        res matches Ok((b, _)) ==> b@.groq == groq && b@.local == local,
        res matches Ok((b, _)) ==> (b@.active is Local <==> desired is Local && local is Some),
        res matches Ok((b, notice)) ==> (notice is Some <==> b@.active != desired),
{
}

/// Where the client depends on the key alone, it is the one for the configured key,
/// and without a key there is none.
pub proof fn law_client_is_built_from_the_key<G, F: FnOnce(Secret) -> G>(
    raw: RawConfig,
    build: F,
    client: spec_fn(Seq<char>) -> G,
    groq: Option<G>,
)
    requires
        forall|k: Secret, g: G| #[trigger] call_ensures(build, (k,), g) ==> g == client(k@),
        is_built(raw, build, groq),
    ensures
        raw.groq_api_key matches Some(key) ==> groq == Some(client(key@)),
        raw.groq_api_key is None ==> groq is None,
{
}

/// Where loading depends on the path alone, the model is the one at the configured
/// path, and there is none where that does not load or no path is configured.
pub proof fn law_model_is_loaded_from_the_path<
    L,
    F: FnOnce(&str) -> Result<L, TranscribeError>,
>(
    raw: RawConfig,
    load: F,
    loaded: spec_fn(Seq<char>) -> Result<L, TranscribeError>,
    local: Option<L>,
)
    requires
        forall|p: &str, r: Result<L, TranscribeError>| #[trigger]
            call_ensures(load, (p,), r) ==> r == loaded(p@),
        is_loaded(raw, load, local),
    ensures
        raw.whisper_model_path matches Some(path) ==> (match loaded(path@) {
            Ok(l) => local == Some(l),
            Err(_) => local is None,
        }),
        raw.whisper_model_path is None ==> local is None,
{
}

/// An error is seen as it is.
pub proof fn law_transcribe_errors_are_seen_whole(
    m: String,
    n: usize,
    code: u16,
    retry_after: Option<u64>,
)
    ensures
        TranscribeError::Network(m)@ == ErrorView::Network(m@),
        TranscribeError::Timeout@ == ErrorView::Timeout,
        TranscribeError::Auth(m)@ == ErrorView::Auth(m@),
        (TranscribeError::RateLimited { retry_after, message: m })@ == (ErrorView::RateLimited {
            retry_after,
            message: m@,
        }),
        TranscribeError::TooLarge(n)@ == ErrorView::TooLarge(n),
        TranscribeError::Server(m)@ == ErrorView::Server(m@),
        TranscribeError::Http(code, m)@ == ErrorView::Http(code, m@),
        TranscribeError::Decode(m)@ == ErrorView::Decode(m@),
        TranscribeError::Encode(m)@ == ErrorView::Encode(m@),
        TranscribeError::Local(m)@ == ErrorView::Local(m@),
{
}

/// An error in words tells its detail, whole, and its numbers in decimal notation.
pub proof fn law_transcribe_errors_tell_the_detail(m: Seq<char>, n: usize, code: u16, secs: u64)
    ensures
        ErrorView::Network(m).spec_message().skip(15) == m,
        ErrorView::Auth(m).spec_message().skip(44) == m,
        ErrorView::Server(m).spec_message().skip(14) == m,
        ErrorView::Decode(m).spec_message().skip(27) == m,
        ErrorView::Encode(m).spec_message().skip(24) == m,
        ErrorView::Local(m).spec_message().skip(19) == m,
        ErrorView::TooLarge(n).spec_message().subrange(
            17,
            17 + text::decimal(n as nat).len() as int,
        ) == text::decimal(n as nat),
        ErrorView::Http(code, m).spec_message().subrange(
            21,
            21 + text::decimal(code as nat).len() as int,
        ) == text::decimal(code as nat),
        ErrorView::Http(code, m).spec_message().skip(
            21 + text::decimal(code as nat).len() as int + 3,
        ) == m,
        (ErrorView::RateLimited { retry_after: Some(secs), message: m }).spec_message().subrange(
            27,
            27 + text::decimal(secs as nat).len() as int,
        ) == text::decimal(secs as nat),
{
    reveal_strlit("network error: ");
    reveal_strlit("authentication failed — check GROQ_API_KEY: ");
    reveal_strlit("server error: ");
    reveal_strlit("failed to decode response: ");
    reveal_strlit("failed to encode audio: ");
    reveal_strlit("local model error: ");
    reveal_strlit("audio too large (");
    reveal_strlit("unexpected response (");
    reveal_strlit("): ");
    reveal_strlit("rate limited");
    reveal_strlit(" — retry after ");
    let size = text::decimal(n as nat);
    let status = text::decimal(code as nat);
    let wait = text::decimal(secs as nat);
    assert(ErrorView::Network(m).spec_message().skip(15) =~= m);
    assert(ErrorView::Auth(m).spec_message().skip(44) =~= m);
    assert(ErrorView::Server(m).spec_message().skip(14) =~= m);
    assert(ErrorView::Decode(m).spec_message().skip(27) =~= m);
    assert(ErrorView::Encode(m).spec_message().skip(24) =~= m);
    assert(ErrorView::Local(m).spec_message().skip(19) =~= m);
    assert(ErrorView::TooLarge(n).spec_message().subrange(17, 17 + size.len() as int)
        =~= size);
    assert(ErrorView::Http(code, m).spec_message().subrange(21, 21 + status.len() as int)
        =~= status);
    assert(ErrorView::Http(code, m).spec_message().skip(21 + status.len() as int + 3) =~= m);
    let limited = ErrorView::RateLimited { retry_after: Some(secs), message: m };
    assert(limited.spec_message().subrange(27, 27 + wait.len() as int) =~= wait);
}

}
