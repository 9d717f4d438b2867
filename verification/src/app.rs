//! The program as a machine: the state of a recording, and what each event asks
//! to be done.
//!
//! [`Machine`] follows one recording at a time from the key press to the typed
//! transcript. [`App`] adds the tray, the backends and the hotkey; it takes one
//! [`UserEvent`] after the other and answers with the [`Effect`]s that the caller
//! carries out.

use crate::audio::capture;
use crate::audio::capture::{
    AudioCommand, AudioError, CapturedAudio, ClipView, OpenOutcome,
};
use crate::audio::preprocess;
use crate::config::Backend;
use crate::inject;
use crate::inject::{InjectError, InjectStep, StepView};
use crate::logging;
use crate::text;
use crate::transcription::{ActiveBackend, Backends, BackendsView, SwitchOutcome};
use crate::tray::{Tray, TrayView};
use vstd::prelude::*;

verus! {

/// How far the recording in hand has got.
#[derive(Debug, Clone, Copy, PartialEq, Eq, Structural)]
pub enum AppState {
    Idle,
    Recording,
    Finalizing,
    Transcribing,
}

#[derive(Debug, Clone, Copy, PartialEq, Eq, Structural)]
pub enum PressAction {
    StartCapture,
    Ignore,
}

#[derive(Debug, Clone, Copy, PartialEq, Eq, Structural)]
pub enum ReleaseAction {
    StopCapture,
    Ignore,
}

#[derive(Debug, Clone, Copy, PartialEq, Eq, Structural)]
pub enum CapturedAction {
    /// Transcribe the clip under this id.
    Dispatch(u64),
    DropClip,
    Ignore,
}

#[derive(Debug, Clone, Copy, PartialEq, Eq, Structural)]
pub enum ResultAction {
    /// The result belongs to the recording in hand.
    Current,
    /// The result belongs to an abandoned recording.
    Stale,
    Ignore,
}

/// The state of the recording in hand, and how many clips were dispatched.
pub struct Machine {
    state: AppState,
    gen_id: u64,
}

/// What a [`Machine`] holds.
pub struct MachineView {
    pub state: AppState,
    pub gen_id: nat,
}

impl View for Machine {
    type V = MachineView;

    closed spec fn view(&self) -> MachineView {
        MachineView { state: self.state, gen_id: self.gen_id as nat }
    }
}

impl MachineView {
    pub open spec fn in_state(self, state: AppState) -> MachineView {
        MachineView { state, ..self }
    }

    pub open spec fn press(self) -> (MachineView, PressAction) {
        if self.state is Idle {
            (self.in_state(AppState::Recording), PressAction::StartCapture)
        } else {
            (self, PressAction::Ignore)
        }
    }

    pub open spec fn release(self) -> (MachineView, ReleaseAction) {
        if self.state is Recording {
            (self.in_state(AppState::Finalizing), ReleaseAction::StopCapture)
        } else {
            (self, ReleaseAction::Ignore)
        }
    }

    pub open spec fn captured(self, passes_gate: bool) -> (MachineView, CapturedAction) {
        if !(self.state is Finalizing) {
            (self, CapturedAction::Ignore)
        } else if passes_gate {
            (
                MachineView { state: AppState::Transcribing, gen_id: self.gen_id + 1 },
                CapturedAction::Dispatch((self.gen_id + 1) as u64),
            )
        } else {
            (self.in_state(AppState::Idle), CapturedAction::DropClip)
        }
    }

    pub open spec fn transcribed(self, id: u64) -> (MachineView, ResultAction) {
        if !(self.state is Transcribing) {
            (self, ResultAction::Ignore)
        } else if id == self.gen_id {
            (self.in_state(AppState::Idle), ResultAction::Current)
        } else {
            (self.in_state(AppState::Idle), ResultAction::Stale)
        }
    }
}

impl Default for Machine {
    fn default() -> (res: Self)
        ensures
            res@ == (MachineView { state: AppState::Idle, gen_id: 0 }),
    {
        Machine::new()
    }
}

impl Machine {
    pub fn new() -> (res: Machine)
        ensures
            res@ == (MachineView { state: AppState::Idle, gen_id: 0 }),
    {
        Machine { state: AppState::Idle, gen_id: 0 }
    }

    pub fn state(&self) -> (res: AppState)
        ensures
            res == self@.state,
    {
        self.state
    }

    /// The id of the last clip that was dispatched; 0 where there was none.
    pub fn gen_id(&self) -> (res: u64)
        ensures
            res == self@.gen_id,
    {
        self.gen_id
    }

    /// Whether the backend may be switched: only while nothing is in hand.
    pub fn can_switch(&self) -> (res: bool)
        ensures
            res == (self@.state is Idle),
    {
        self.state == AppState::Idle
    }

    /// The hotkey was pressed. While something is in hand this is ignored.
    pub fn on_press(&mut self) -> (res: PressAction)
        ensures
            (final(self)@, res) == old(self)@.press(),
    {
        if self.state == AppState::Idle {
            self.state = AppState::Recording;
            PressAction::StartCapture
        } else {
            PressAction::Ignore
        }
    }

    /// The hotkey was released.
    pub fn on_release(&mut self) -> (res: ReleaseAction)
        ensures
            (final(self)@, res) == old(self)@.release(),
    {
        if self.state == AppState::Recording {
            self.state = AppState::Finalizing;
            ReleaseAction::StopCapture
        } else {
            ReleaseAction::Ignore
        }
    }

    /// The clip arrived. It is dispatched under a new id, or dropped where it is
    /// not worth transcribing.
    pub fn on_captured(&mut self, passes_gate: bool) -> (res: CapturedAction)
        requires
            old(self)@.state is Finalizing && passes_gate ==> old(self)@.gen_id < u64::MAX,
        ensures
            (final(self)@, res) == old(self)@.captured(passes_gate),
    {
        if self.state != AppState::Finalizing {
            return CapturedAction::Ignore;
        }
        if passes_gate {
            self.gen_id = self.gen_id + 1;
            self.state = AppState::Transcribing;
            CapturedAction::Dispatch(self.gen_id)
        } else {
            self.state = AppState::Idle;
            CapturedAction::DropClip
        }
    }

    /// The result of a transcription arrived.
    pub fn on_transcribed(&mut self, id: u64) -> (res: ResultAction)
        ensures
            (final(self)@, res) == old(self)@.transcribed(id),
    {
        if self.state != AppState::Transcribing {
            return ResultAction::Ignore;
        }
        self.state = AppState::Idle;
        if id == self.gen_id {
            ResultAction::Current
        } else {
            ResultAction::Stale
        }
    }
}

/// Whether the hotkey went down or up.
#[derive(Debug, Clone, Copy, PartialEq, Eq, Structural)]
pub enum HotkeyState {
    Pressed,
    Released,
}

/// Something that happened.
pub enum UserEvent<S> {
    /// The tray icon was clicked.
    TrayIcon,
    /// The menu entry with this id was chosen.
    Menu { id: String },
    Hotkey { id: u32, state: HotkeyState },
    /// A clip arrived; `loud` says whether its level is above silence.
    AudioCaptured { clip: CapturedAudio<S>, loud: bool },
    /// The transcription of the clip with this id ended.
    Transcribed { id: u64, result: Result<String, String> },
}

/// What a [`UserEvent`] holds.
pub enum EventView<S> {
    TrayIcon,
    Menu { id: Seq<char> },
    Hotkey { id: u32, state: HotkeyState },
    AudioCaptured { clip: ClipView<S>, loud: bool },
    Transcribed { id: u64, result: Result<Seq<char>, Seq<char>> },
}

/// What the result of a transcription holds.
pub open spec fn result_view(result: Result<String, String>) -> Result<Seq<char>, Seq<char>> {
    match result {
        Ok(t) => Ok(t@),
        Err(m) => Err(m@),
    }
}

impl<S> View for UserEvent<S> {
    type V = EventView<S>;

    open spec fn view(&self) -> EventView<S> {
        match self {
            UserEvent::TrayIcon => EventView::TrayIcon,
            UserEvent::Menu { id } => EventView::Menu { id: id@ },
            UserEvent::Hotkey { id, state } => EventView::Hotkey { id: *id, state: *state },
            UserEvent::AudioCaptured { clip, loud } => EventView::AudioCaptured {
                clip: clip@,
                loud: *loud,
            },
            UserEvent::Transcribed { id, result } => EventView::Transcribed {
                id: *id,
                result: result_view(*result),
            },
        }
    }
}

/// How serious a log line is.
#[derive(Debug, Clone, Copy, PartialEq, Eq, Structural)]
pub enum Level {
    Info,
    Warn,
    Error,
}

/// Something to be done.
pub enum Effect<S> {
    /// Tell the audio thread to start recording.
    StartCapture,
    /// Tell the audio thread to stop and to hand over the clip.
    StopCapture,
    /// Show the icon and the tooltip for this state.
    ShowRecording(bool),
    /// Move the checkmark to this backend.
    ShowActive(Backend),
    /// Show a passing notice in the tooltip.
    Transient(String),
    /// Show a notice that must be seen.
    Notify { title: String, body: String },
    /// Transcribe the clip with the active backend, which is of this kind, and
    /// report the result under the id.
    Dispatch { id: u64, backend: Backend, clip: CapturedAudio<S> },
    /// Type text into the focused window.
    Inject(Vec<InjectStep>),
    Log { level: Level, line: String },
    /// Leave the event loop.
    Exit,
}

/// What an [`Effect`] holds.
pub enum EffectView<S> {
    StartCapture,
    StopCapture,
    ShowRecording(bool),
    ShowActive(Backend),
    Transient(Seq<char>),
    Notify { title: Seq<char>, body: Seq<char> },
    Dispatch { id: u64, backend: Backend, clip: ClipView<S> },
    Inject(Seq<StepView>),
    Log { level: Level, line: Seq<char> },
    Exit,
}

impl<S> View for Effect<S> {
    type V = EffectView<S>;

    open spec fn view(&self) -> EffectView<S> {
        match self {
            Effect::StartCapture => EffectView::StartCapture,
            Effect::StopCapture => EffectView::StopCapture,
            Effect::ShowRecording(recording) => EffectView::ShowRecording(*recording),
            Effect::ShowActive(active) => EffectView::ShowActive(*active),
            Effect::Transient(message) => EffectView::Transient(message@),
            Effect::Notify { title, body } => EffectView::Notify { title: title@, body: body@ },
            Effect::Dispatch { id, backend, clip } => EffectView::Dispatch {
                id: *id,
                backend: *backend,
                clip: clip@,
            },
            Effect::Inject(steps) => EffectView::Inject(inject::step_views(steps@)),
            Effect::Log { level, line } => EffectView::Log { level: *level, line: line@ },
            Effect::Exit => EffectView::Exit,
        }
    }
}

/// What a list of effects holds.
pub open spec fn effect_views<S>(effects: Seq<Effect<S>>) -> Seq<EffectView<S>> {
    effects.map_values(|e: Effect<S>| e@)
}

/// A title and a body.
pub open spec fn notice_views(notices: Seq<(String, String)>) -> Seq<(Seq<char>, Seq<char>)> {
    notices.map_values(|n: (String, String)| (n.0@, n.1@))
}

/// The program: the recording in hand, the tray once it is there, the backends,
/// the hotkey, and the notices that wait for the tray.
pub struct App<G, L> {
    machine: Machine,
    tray: Option<Tray>,
    backends: Backends<G, L>,
    hotkey_id: u32,
    pending_notices: Vec<(String, String)>,
}

/// What an [`App`] holds.
pub struct AppView<G, L> {
    pub machine: MachineView,
    pub tray: Option<TrayView>,
    pub backends: BackendsView<G, L>,
    pub hotkey_id: u32,
    pub pending_notices: Seq<(Seq<char>, Seq<char>)>,
}

impl<G, L> View for App<G, L> {
    type V = AppView<G, L>;

    closed spec fn view(&self) -> AppView<G, L> {
        AppView {
            machine: self.machine@,
            tray: match self.tray {
                Some(t) => Some(t@),
                None => None,
            },
            backends: self.backends@,
            hotkey_id: self.hotkey_id,
            pending_notices: notice_views(self.pending_notices@),
        }
    }
}

/// The notices that a start leaves for the tray: that there is no microphone,
/// and that another backend than the configured one is in use.
pub open spec fn start_notices(
    microphone: Result<(), AudioError>,
    fallback: Option<String>,
) -> Seq<(Seq<char>, Seq<char>)> {
    let missing = match microphone {
        Ok(_) => Seq::empty(),
        Err(e) => seq![("Microphone unavailable"@, e@.spec_message())],
    };
    match fallback {
        Some(notice) => missing.push(("Backend fallback"@, notice@)),
        None => missing,
    }
}

/// The body of the notice that a backend cannot be switched to.
pub open spec fn unavailable(target: Backend) -> Seq<char> {
    "The "@ + target.spec_name()
        + " backend is not available (model not loaded). Staying on the current backend."@
}

impl<G, L> AppView<G, L> {
    /// The program with the tray showing whether a recording goes on, and the
    /// effect for it. Without a tray there is neither.
    pub open spec fn showing<S>(self, recording: bool) -> (AppView<G, L>, Seq<EffectView<S>>) {
        match self.tray {
            Some(t) => (
                AppView { tray: Some(t.with_recording(recording)), ..self },
                seq![EffectView::ShowRecording(recording)],
            ),
            None => (self, Seq::empty()),
        }
    }

    /// The hotkey with this id went down or up.
    pub open spec fn hotkey<S>(self, id: u32, state: HotkeyState) -> (
        AppView<G, L>,
        Seq<EffectView<S>>,
    ) {
        if id != self.hotkey_id {
            (self, Seq::empty())
        } else {
            match state {
                HotkeyState::Pressed => {
                    let (machine, action) = self.machine.press();
                    if action == PressAction::StartCapture {
                        let (app, shown) = AppView { machine, ..self }.showing(true);
                        (app, seq![EffectView::StartCapture] + shown)
                    } else {
                        (self, Seq::empty())
                    }
                },
                HotkeyState::Released => {
                    let (machine, action) = self.machine.release();
                    if action == ReleaseAction::StopCapture {
                        let (app, shown) = AppView { machine, ..self }.showing(false);
                        (app, seq![EffectView::StopCapture] + shown)
                    } else {
                        (self, Seq::empty())
                    }
                },
            }
        }
    }

    /// The menu entry with this id was chosen. Before there is a tray there is no
    /// menu; a backend can only be chosen while nothing is in hand.
    pub open spec fn menu<S>(self, id: Seq<char>) -> (AppView<G, L>, Seq<EffectView<S>>) {
        match self.tray {
            None => (self, Seq::empty()),
            Some(tray) => if id == tray.quit_id {
                (self, seq![EffectView::Exit])
            } else {
                match tray.backend_of(id) {
                    None => (self, Seq::empty()),
                    Some(target) => if self.machine.state is Idle {
                        self.switch_to(tray, target)
                    } else {
                        (self, Seq::empty())
                    },
                }
            },
        }
    }

    /// The backend was chosen in the menu of this tray.
    pub open spec fn switch_to<S>(self, tray: TrayView, target: Backend) -> (
        AppView<G, L>,
        Seq<EffectView<S>>,
    ) {
        let backends = self.backends.switched(target);
        let shown = AppView {
            backends,
            tray: Some(tray.with_active(backends.active)),
            ..self
        };
        match self.backends.outcome(target) {
            SwitchOutcome::Switched => (
                shown,
                seq![
                    EffectView::ShowActive(backends.active),
                    EffectView::Log {
                        level: Level::Info,
                        line: "switched backend to "@ + target.spec_name(),
                    },
                ],
            ),
            SwitchOutcome::Unchanged => (self, Seq::empty()),
            SwitchOutcome::Rejected => (
                shown,
                seq![
                    EffectView::ShowActive(backends.active),
                    EffectView::Notify {
                        title: "Backend unavailable"@,
                        body: unavailable(target),
                    },
                ],
            ),
        }
    }

    /// Whether an id is left for a clip, if it is to be dispatched.
    pub open spec fn has_id_for<S>(self, clip: ClipView<S>, loud: bool) -> bool {
        self.machine.state is Finalizing && preprocess::gate(
            clip.samples.len(),
            clip.sample_rate,
            clip.channels,
            loud,
        ) ==> self.machine.gen_id < u64::MAX
    }

    /// A clip arrived.
    pub open spec fn audio_captured<S>(self, clip: ClipView<S>, loud: bool) -> (
        AppView<G, L>,
        Seq<EffectView<S>>,
    ) {
        let pass = preprocess::gate(clip.samples.len(), clip.sample_rate, clip.channels, loud);
        let (machine, action) = self.machine.captured(pass);
        let app = AppView { machine, ..self };
        match action {
            CapturedAction::Dispatch(id) => (
                app,
                seq![EffectView::Dispatch { id, backend: self.backends.active, clip }],
            ),
            CapturedAction::DropClip => (
                app,
                seq![
                    EffectView::Log {
                        level: Level::Info,
                        line: "dropped clip (too short or silent)"@,
                    },
                ],
            ),
            CapturedAction::Ignore => (app, Seq::empty()),
        }
    }

    /// The result of a transcription arrived.
    pub open spec fn transcribed<S>(self, id: u64, result: Result<Seq<char>, Seq<char>>) -> (
        AppView<G, L>,
        Seq<EffectView<S>>,
    ) {
        let (machine, action) = self.machine.transcribed(id);
        let app = AppView { machine, ..self };
        match action {
            ResultAction::Current => match result {
                Ok(transcript) => (app, typing(transcript)),
                Err(message) => app.failed(message),
            },
            ResultAction::Stale => (
                app,
                seq![
                    EffectView::Log {
                        level: Level::Info,
                        line: "dropped stale transcription result (id "@ + text::decimal(id as nat)
                            + ")"@,
                    },
                ],
            ),
            ResultAction::Ignore => (app, Seq::empty()),
        }
    }

    /// The transcription in hand failed: it is logged, and the tooltip says so.
    pub open spec fn failed<S>(self, message: Seq<char>) -> (AppView<G, L>, Seq<EffectView<S>>) {
        let logged = EffectView::Log {
            level: Level::Warn,
            line: "transcription failed: "@ + message,
        };
        match self.tray {
            Some(tray) => (
                AppView { tray: Some(tray.with_notice("transcription failed"@)), ..self },
                seq![logged, EffectView::Transient("transcription failed"@)],
            ),
            None => (self, seq![logged]),
        }
    }

    /// The program after an event, and what is to be done.
    pub open spec fn step<S>(self, event: EventView<S>) -> (AppView<G, L>, Seq<EffectView<S>>) {
        match event {
            EventView::Hotkey { id, state } => self.hotkey(id, state),
            EventView::Menu { id } => self.menu(id),
            EventView::AudioCaptured { clip, loud } => self.audio_captured(clip, loud),
            EventView::Transcribed { id, result } => self.transcribed(id, result),
            EventView::TrayIcon => (self, Seq::empty()),
        }
    }
}

/// What is done with a transcript: its length is logged, and what is left of it
/// after sanitizing is typed.
pub open spec fn typing<S>(transcript: Seq<char>) -> Seq<EffectView<S>> {
    let logged = EffectView::Log {
        level: Level::Info,
        line: logging::description(transcript.len()),
    };
    if inject::planned(transcript).len() == 0 {
        seq![logged]
    } else {
        seq![logged, EffectView::Inject(inject::planned(transcript))]
    }
}

impl<G, L> App<G, L> {
    /// A program with nothing in hand and no tray yet. `microphone` is what
    /// probing it gave, `fallback` the notice that another backend is in use.
    pub fn new(
        backends: Backends<G, L>,
        hotkey_id: u32,
        microphone: Result<(), AudioError>,
        fallback: Option<String>,
    ) -> (res: App<G, L>)
        ensures
            res@ == (AppView {
                machine: MachineView { state: AppState::Idle, gen_id: 0 },
                tray: None,
                backends: backends@,
                hotkey_id,
                pending_notices: start_notices(microphone, fallback),
            }),
    {
        let mut pending_notices: Vec<(String, String)> = Vec::new();
        let ghost expected = start_notices(microphone, fallback);
        if let Err(e) = microphone {
            pending_notices.push(("Microphone unavailable".to_owned(), e.message()));
        }
        if let Some(notice) = fallback {
            pending_notices.push(("Backend fallback".to_owned(), notice));
        }
        proof {
            assert(notice_views(pending_notices@) =~= expected);
        }
        App { machine: Machine::new(), tray: None, backends, hotkey_id, pending_notices }
    }

    /// Whether the event loop, just started or not, has to build the tray.
    pub fn needs_tray(&self, just_started: bool) -> (res: bool)
        ensures
            res == (just_started && self@.tray is None),
    {
        just_started && self.tray.is_none()
    }

    /// The backend in use.
    pub fn active(&self) -> (res: Backend)
        ensures
            res == self@.backends.active,
    {
        self.backends.active_kind()
    }

    /// A clone of the backend in use.
    pub fn current(&self) -> (res: ActiveBackend<G, L>) where G: Clone, L: Clone
        ensures
            match self@.backends.active {
                Backend::Groq => self@.backends.groq matches Some(g) && res
                    matches ActiveBackend::Groq(h) && cloned(g, h),
                Backend::Local => self@.backends.local matches Some(l) && res
                    matches ActiveBackend::Local(h) && cloned(l, h),
            },
    {
        self.backends.current()
    }

    /// The recording in hand.
    pub fn machine(&self) -> (res: &Machine)
        ensures
            res@ == self@.machine,
    {
        &self.machine
    }

    /// What the tray shows, once it is there.
    pub fn tray(&self) -> (res: Option<&Tray>)
        ensures
            match self@.tray {
                Some(t) => res matches Some(r) && r@ == t,
                None => res is None,
            },
    {
        self.tray.as_ref()
    }

    /// Takes over the menu of a tray that was just built, which shows the backend
    /// in use, and hands out the notices that waited for it.
    pub fn install_tray(&mut self, quit_id: String, local_id: String, groq_id: String) -> (res: Vec<
        (String, String),
    >)
        requires
            old(self)@.tray is None,
        ensures
            final(self)@ == (AppView {
                tray: Some(
                    TrayView {
                        quit_id: quit_id@,
                        local_id: local_id@,
                        groq_id: groq_id@,
                        active: old(self)@.backends.active,
                        recording: false,
                        tooltip: crate::tray::state_tooltip(false),
                    },
                ),
                pending_notices: Seq::empty(),
                ..old(self)@
            }),
            notice_views(res@) == old(self)@.pending_notices,
    {
        self.tray = Some(Tray::new(self.backends.active_kind(), quit_id, local_id, groq_id));
        let mut notices: Vec<(String, String)> = Vec::new();
        std::mem::swap(&mut notices, &mut self.pending_notices);
        proof {
            assert(notice_views(self.pending_notices@) =~= Seq::empty());
        }
        notices
    }

    fn set_recording<S>(&mut self, recording: bool, effects: &mut Vec<Effect<S>>)
        ensures
            final(self)@ == old(self)@.showing::<S>(recording).0,
            effect_views(final(effects)@) == effect_views(old(effects)@) + old(self)@.showing::<
                S,
            >(recording).1,
    {
        let ghost before = effects@;
        if let Some(mut tray) = self.tray.take() {
            tray.set_recording(recording);
            self.tray = Some(tray);
            effects.push(Effect::ShowRecording(recording));
        }
        proof {
            assert(effect_views(effects@) =~= effect_views(before) + old(self)@.showing::<S>(
                recording,
            ).1);
        }
    }

    /// The hotkey went down or up. Another hotkey is none of the program's
    /// business.
    pub fn on_hotkey<S>(&mut self, id: u32, state: HotkeyState) -> (res: Vec<Effect<S>>)
        ensures
            (final(self)@, effect_views(res@)) == old(self)@.hotkey::<S>(id, state),
    {
        let mut effects: Vec<Effect<S>> = Vec::new();
        proof {
            assert(effect_views(effects@) =~= Seq::<EffectView<S>>::empty());
        }
        if id != self.hotkey_id {
            return effects;
        }
        match state {
            HotkeyState::Pressed => {
                if self.machine.on_press() == PressAction::StartCapture {
                    effects.push(Effect::StartCapture);
                    proof {
                        assert(effect_views(effects@) =~= seq![EffectView::<S>::StartCapture]);
                    }
                    self.set_recording(true, &mut effects);
                }
            },
            HotkeyState::Released => {
                if self.machine.on_release() == ReleaseAction::StopCapture {
                    effects.push(Effect::StopCapture);
                    proof {
                        assert(effect_views(effects@) =~= seq![EffectView::<S>::StopCapture]);
                    }
                    self.set_recording(false, &mut effects);
                }
            },
        }
        effects
    }

    /// A menu entry was chosen.
    pub fn on_menu<S>(&mut self, id: &str) -> (res: Vec<Effect<S>>)
        ensures
            (final(self)@, effect_views(res@)) == old(self)@.menu::<S>(id@),
    {
        let mut effects: Vec<Effect<S>> = Vec::new();
        proof {
            assert(effect_views(effects@) =~= Seq::<EffectView<S>>::empty());
        }
        let target = match self.tray.as_ref() {
            None => {
                return effects;
            },
            Some(tray) => {
                if tray.is_quit(id) {
                    effects.push(Effect::Exit);
                    proof {
                        assert(effect_views(effects@) =~= seq![EffectView::<S>::Exit]);
                    }
                    return effects;
                }
                tray.backend_for(id)
            },
        };
        let target = match target {
            None => {
                return effects;
            },
            Some(t) => t,
        };
        if !self.machine.can_switch() {
            return effects;
        }
        let outcome = self.backends.switch(target);
        if outcome == SwitchOutcome::Unchanged {
            return effects;
        }
        let active = self.backends.active_kind();
        if let Some(mut tray) = self.tray.take() {
            tray.set_active(active);
            self.tray = Some(tray);
        }
        effects.push(Effect::ShowActive(active));
        if outcome == SwitchOutcome::Switched {
            let mut line = "switched backend to ".to_owned();
            line.append(target.name());
            effects.push(Effect::Log { level: Level::Info, line });
        } else {
            let mut body = "The ".to_owned();
            body.append(target.name());
            body.append(
                " backend is not available (model not loaded). Staying on the current backend.",
            );
            effects.push(Effect::Notify { title: "Backend unavailable".to_owned(), body });
        }
        proof {
            assert(effect_views(effects@) =~= old(self)@.menu::<S>(id@).1);
        }
        effects
    }

    /// A clip arrived.
    pub fn on_audio_captured<S>(&mut self, clip: CapturedAudio<S>, loud: bool) -> (res: Vec<
        Effect<S>,
    >)
        requires
            old(self)@.has_id_for(clip@, loud),
        ensures
            (final(self)@, effect_views(res@)) == old(self)@.audio_captured(clip@, loud),
    {
        let ghost view = clip@;
        let mut effects: Vec<Effect<S>> = Vec::new();
        let pass = preprocess::passes_gate(
            clip.samples.as_slice(),
            clip.sample_rate,
            clip.channels,
            loud,
        );
        match self.machine.on_captured(pass) {
            CapturedAction::Dispatch(id) => {
                let backend = self.backends.active_kind();
                effects.push(Effect::Dispatch { id, backend, clip });
            },
            CapturedAction::DropClip => {
                effects.push(
                    Effect::Log {
                        level: Level::Info,
                        line: "dropped clip (too short or silent)".to_owned(),
                    },
                );
            },
            CapturedAction::Ignore => {},
        }
        proof {
            assert(effect_views(effects@) =~= old(self)@.audio_captured(view, loud).1);
        }
        effects
    }

    /// The result of a transcription arrived.
    pub fn on_transcribed<S>(&mut self, id: u64, result: Result<String, String>) -> (res: Vec<
        Effect<S>,
    >)
        ensures
            (final(self)@, effect_views(res@)) == old(self)@.transcribed::<S>(
                id,
                result_view(result),
            ),
    {
        let ghost view = result_view(result);
        let mut effects: Vec<Effect<S>> = Vec::new();
        match self.machine.on_transcribed(id) {
            ResultAction::Current => match result {
                Ok(transcript) => {
                    let line = logging::describe_transcript(transcript.as_str());
                    effects.push(Effect::Log { level: Level::Info, line });
                    let steps = inject::inject_plan(transcript.as_str());
                    proof {
                        assert(inject::step_views(steps@).len() == steps@.len());
                    }
                    if steps.len() > 0 {
                        effects.push(Effect::Inject(steps));
                    }
                },
                Err(message) => {
                    let mut line = "transcription failed: ".to_owned();
                    line.append(message.as_str());
                    effects.push(Effect::Log { level: Level::Warn, line });
                    if let Some(mut tray) = self.tray.take() {
                        tray.transient("transcription failed");
                        self.tray = Some(tray);
                        effects.push(Effect::Transient("transcription failed".to_owned()));
                    }
                },
            },
            ResultAction::Stale => {
                let mut line = "dropped stale transcription result (id ".to_owned();
                line.append(text::decimal_text(id).as_str());
                line.append(")");
                effects.push(Effect::Log { level: Level::Info, line });
            },
            ResultAction::Ignore => {},
        }
        proof {
            assert(effect_views(effects@) =~= old(self)@.transcribed::<S>(id, view).1);
        }
        effects
    }

    /// Handles one event and says what is to be done, in order.
    pub fn user_event<S>(&mut self, event: UserEvent<S>) -> (res: Vec<Effect<S>>)
        requires
            event matches UserEvent::AudioCaptured { clip, loud } ==> old(self)@.has_id_for(
                clip@,
                loud,
            ),
        ensures
            (final(self)@, effect_views(res@)) == old(self)@.step(event@),
    {
        match event {
            UserEvent::Hotkey { id, state } => self.on_hotkey(id, state),
            UserEvent::Menu { id } => self.on_menu(id.as_str()),
            UserEvent::AudioCaptured { clip, loud } => self.on_audio_captured(clip, loud),
            UserEvent::Transcribed { id, result } => self.on_transcribed(id, result),
            UserEvent::TrayIcon => {
                let effects: Vec<Effect<S>> = Vec::new();
                proof {
                    assert(effect_views(effects@) =~= Seq::<EffectView<S>>::empty());
                }
                effects
            },
        }
    }
}

/// The log line for text that could not be typed.
pub fn injection_failed(error: &InjectError) -> (res: String)
    ensures
        res@ == "text injection failed: "@ + error.spec_message(),
{
    let mut line = "text injection failed: ".to_owned();
    line.append(error.message().as_str());
    line
}

/// A step of the startup that can fail.
#[derive(Debug, Clone, Copy, PartialEq, Eq, Structural)]
pub enum StartupStep {
    Configuration,
    Backend,
    EventLoop,
    HotkeyManager,
    Run,
}

impl StartupStep {
    pub open spec fn spec_context(self) -> Seq<char> {
        match self {
            StartupStep::Configuration => "loading configuration"@,
            StartupStep::Backend => "initializing the transcription backend"@,
            StartupStep::EventLoop => "building the winit event loop"@,
            StartupStep::HotkeyManager => "creating the global hotkey manager"@,
            StartupStep::Run => "running the winit event loop"@,
        }
    }

    /// The step in words.
    pub fn context(&self) -> (res: &'static str)
        ensures
            res@ == self.spec_context(),
    {
        match self {
            StartupStep::Configuration => "loading configuration",
            StartupStep::Backend => "initializing the transcription backend",
            StartupStep::EventLoop => "building the winit event loop",
            StartupStep::HotkeyManager => "creating the global hotkey manager",
            StartupStep::Run => "running the winit event loop",
        }
    }
}

/// The startup error that names the step and the cause.
pub fn startup_error(step: StartupStep, cause: &str) -> (res: String)
    ensures
        res@ == step.spec_context() + ": "@ + cause@,
{
    let mut m = step.context().to_owned();
    m.append(": ");
    m.append(cause);
    m
}

/// Something that a [`Machine`] is told.
pub enum Input {
    Press,
    Release,
    Captured(bool),
    Transcribed(u64),
}

impl MachineView {
    /// The machine after one input.
    pub open spec fn after(self, input: Input) -> MachineView {
        match input {
            Input::Press => self.press().0,
            Input::Release => self.release().0,
            Input::Captured(pass) => self.captured(pass).0,
            Input::Transcribed(id) => self.transcribed(id).0,
        }
    }

    /// The machine after a list of inputs.
    pub open spec fn after_all(self, inputs: Seq<Input>) -> MachineView
        decreases inputs.len(),
    {
        if inputs.len() == 0 {
            self
        } else {
            self.after_all(inputs.drop_last()).after(inputs.last())
        }
    }
}

/// A recording starts only where nothing is in hand, and only by a press; a
/// press at any other time changes nothing. It ends only by a release.
pub proof fn law_single_recording_in_flight(machine: MachineView, input: Input)
    ensures
        machine.press().1 == PressAction::StartCapture <==> machine.state is Idle,
        !(machine.state is Idle) ==> machine.press() == (machine, PressAction::Ignore),
        machine.after(input).state is Recording && !(machine.state is Recording) ==> input is Press
            && machine.state is Idle,
        machine.state is Recording && !(machine.after(input).state is Recording) ==> input
            is Release,
{
}

/// The four states are passed in turn: from each, an input leads to the next one
/// or back to idle, or changes nothing.
pub proof fn law_states_in_order(machine: MachineView, input: Input)
    ensures
        ({
            let next = machine.after(input).state;
            ||| next == machine.state
            ||| machine.state is Idle && next is Recording
            ||| machine.state is Recording && next is Finalizing
            ||| machine.state is Finalizing && (next is Transcribing || next is Idle)
            ||| machine.state is Transcribing && next is Idle
        }),
{
}

/// No input takes a dispatched id back.
pub proof fn law_ids_never_decrease(machine: MachineView, inputs: Seq<Input>)
    ensures
        machine.gen_id <= machine.after_all(inputs).gen_id,
    decreases inputs.len(),
{
    if inputs.len() > 0 {
        law_ids_never_decrease(machine, inputs.drop_last());
    }
}

/// A clip that is dispatched gets a greater id than every clip before it,
/// whatever happened in between.
pub proof fn law_ids_are_fresh(machine: MachineView, between: Seq<Input>)
    requires
        machine.captured(true).0.after_all(between).gen_id < u64::MAX,
    ensures
        ({
            let later = machine.captured(true).0.after_all(between);
            machine.captured(true).1 matches CapturedAction::Dispatch(first) ==> (
            later.captured(true).1 matches CapturedAction::Dispatch(second) ==> first < second)
        }),
{
    law_ids_never_decrease(machine.captured(true).0, between);
}

/// A result is acted upon only while a transcription is in hand, and only under
/// the id that was dispatched last; a result of an earlier clip is stale.
pub proof fn law_only_the_last_clip_is_current(machine: MachineView, inputs: Seq<Input>, id: u64)
    requires
        machine.gen_id < u64::MAX,
    ensures
        ({
            let later = machine.captured(true).0.after_all(inputs);
            machine.captured(true).1 matches CapturedAction::Dispatch(first) ==> {
                &&& later.transcribed(id).1 is Current ==> first <= id && id == later.gen_id
                &&& id < first ==> !(later.transcribed(id).1 is Current)
            }
        }),
{
    law_ids_never_decrease(machine.captured(true).0, inputs);
}

impl MachineView {
    /// The recordings that were started over a list of inputs.
    pub open spec fn started(self, inputs: Seq<Input>) -> nat
        decreases inputs.len(),
    {
        if inputs.len() == 0 {
            0
        } else {
            let before = self.after_all(inputs.drop_last());
            let earlier = self.started(inputs.drop_last());
            if inputs.last() is Press && before.press().1 == PressAction::StartCapture {
                earlier + 1
            } else {
                earlier
            }
        }
    }

    /// The recordings that were done with over a list of inputs: the clip was
    /// dropped, or a result came for it.
    pub open spec fn finished(self, inputs: Seq<Input>) -> nat
        decreases inputs.len(),
    {
        if inputs.len() == 0 {
            0
        } else {
            let before = self.after_all(inputs.drop_last());
            let earlier = self.finished(inputs.drop_last());
            match inputs.last() {
                Input::Captured(pass) => if before.captured(pass).1 is DropClip {
                    earlier + 1
                } else {
                    earlier
                },
                Input::Transcribed(id) => if before.transcribed(id).1 is Ignore {
                    earlier
                } else {
                    earlier + 1
                },
                _ => earlier,
            }
        }
    }

    /// The ids of the clips that were dispatched over a list of inputs.
    pub open spec fn dispatched(self, inputs: Seq<Input>) -> Seq<u64>
        decreases inputs.len(),
    {
        if inputs.len() == 0 {
            Seq::empty()
        } else {
            let before = self.after_all(inputs.drop_last());
            let earlier = self.dispatched(inputs.drop_last());
            match inputs.last() {
                Input::Captured(pass) => match before.captured(pass).1 {
                    CapturedAction::Dispatch(id) => earlier.push(id),
                    _ => earlier,
                },
                _ => earlier,
            }
        }
    }
}

/// Over the whole history of a machine that started idle, every recording but at
/// most one is done with: one is in hand if and only if the machine is not idle.
pub proof fn law_one_recording_in_flight_ever(machine: MachineView, inputs: Seq<Input>)
    requires
        machine.state is Idle,
    ensures
        machine.started(inputs) == machine.finished(inputs) + (if machine.after_all(inputs).state
            is Idle {
            0int
        } else {
            1
        }),
    decreases inputs.len(),
{
    if inputs.len() > 0 {
        law_one_recording_in_flight_ever(machine, inputs.drop_last());
    }
}

/// Over the whole history of a new machine the clips are dispatched under the ids
/// 1, 2, 3 and so on, none left out and none used twice.
pub proof fn law_ids_count_the_clips(inputs: Seq<Input>)
    requires
        (MachineView { state: AppState::Idle, gen_id: 0 }).after_all(inputs).gen_id <= u64::MAX,
    ensures
        ({
            let machine = MachineView { state: AppState::Idle, gen_id: 0 };
            let ids = machine.dispatched(inputs);
            &&& ids.len() == machine.after_all(inputs).gen_id
            &&& forall|i: int| 0 <= i < ids.len() ==> #[trigger] ids[i] == i + 1
        }),
    decreases inputs.len(),
{
    if inputs.len() > 0 {
        law_ids_count_the_clips(inputs.drop_last());
    }
}

/// Once a clip is dispatched, the next result ends the transcription, whether it
/// is a transcript, an error or stale: the program is idle and a press starts the
/// next recording.
pub proof fn law_any_result_ends_the_transcription(machine: MachineView, id: u64)
    requires
        machine.state is Transcribing,
    ensures
        machine.transcribed(id).0.state is Idle,
        machine.transcribed(id).0.press().1 == PressAction::StartCapture,
{
}

impl<G, L> AppView<G, L> {
    /// The program after a list of events.
    pub open spec fn after_all<S>(self, events: Seq<EventView<S>>) -> AppView<G, L>
        decreases events.len(),
    {
        if events.len() == 0 {
            self
        } else {
            self.after_all(events.drop_last()).step(events.last()).0
        }
    }

    /// Whether the tray was last told to show what is the case: the icon for
    /// recording if and only if a recording goes on, and the checkmark at the
    /// backend in use.
    pub open spec fn tray_is_right(self) -> bool {
        self.tray matches Some(t) ==> {
            &&& t.recording == (self.machine.state is Recording)
            &&& t.active == self.backends.active
        }
    }
}

/// Whatever happens, the tray is told to show whether the microphone is live and
/// which backend is in use: the program's record of it stays right. (A menu that
/// flips a checkmark by itself when it is clicked is not part of that record.)
pub proof fn law_tray_shows_the_state<G, L, S>(app: AppView<G, L>, events: Seq<EventView<S>>)
    requires
        app.tray_is_right(),
    ensures
        app.after_all(events).tray_is_right(),
    decreases events.len(),
{
    if events.len() > 0 {
        law_tray_shows_the_state(app, events.drop_last());
    }
}

/// The program starts to record only when its own hotkey is pressed and nothing
/// is in hand, and stops only when it is released.
pub proof fn law_only_the_hotkey_records<G, L, S>(app: AppView<G, L>, event: EventView<S>)
    ensures
        app.step(event).1.contains(EffectView::StartCapture) <==> event == (EventView::<S>::Hotkey {
            id: app.hotkey_id,
            state: HotkeyState::Pressed,
        }) && app.machine.state is Idle,
        app.step(event).1.contains(EffectView::StopCapture) <==> event == (EventView::<S>::Hotkey {
            id: app.hotkey_id,
            state: HotkeyState::Released,
        }) && app.machine.state is Recording,
{
    let effects = app.step(event).1;
    if event == (EventView::<S>::Hotkey { id: app.hotkey_id, state: HotkeyState::Pressed })
        && app.machine.state is Idle {
        assert(effects[0] == EffectView::<S>::StartCapture);
    }
    if event == (EventView::<S>::Hotkey { id: app.hotkey_id, state: HotkeyState::Released })
        && app.machine.state is Recording {
        assert(effects[0] == EffectView::<S>::StopCapture);
    }
}

/// Text is typed only for the transcript of the clip in hand, and it is that
/// transcript, sanitized: no character that a terminal acts on is typed.
pub proof fn law_only_the_current_transcript_is_typed<G, L, S>(
    app: AppView<G, L>,
    event: EventView<S>,
    steps: Seq<StepView>,
)
    requires
        app.step(event).1.contains(EffectView::Inject(steps)),
    ensures
        event matches EventView::Transcribed { id, result } && app.machine.state is Transcribing
            && id == app.machine.gen_id && (result matches Ok(transcript) && steps
            == inject::planned(transcript) && inject::typed(steps) == inject::sanitized(transcript)),
        forall|i: int|
            0 <= i < inject::typed(steps).len() ==> inject::is_typable(
                #[trigger] inject::typed(steps)[i],
            ),
{
    if let EventView::Transcribed { id: _, result: Ok(transcript) } = event {
        inject::law_plan_types_the_sanitized_text(transcript);
        inject::law_sanitized_is_typable(transcript);
    }
}

/// What is logged of a transcript does not depend on what it says: for another
/// transcript of the same length the log lines are the same.
pub proof fn law_log_hides_the_transcript<G, L, S>(
    app: AppView<G, L>,
    id: u64,
    a: Seq<char>,
    b: Seq<char>,
    i: int,
)
    requires
        a.len() == b.len(),
        0 <= i < app.transcribed::<S>(id, Ok(a)).1.len(),
        app.transcribed::<S>(id, Ok(a)).1[i] is Log,
    ensures
        i < app.transcribed::<S>(id, Ok(b)).1.len(),
        app.transcribed::<S>(id, Ok(a)).1[i] == app.transcribed::<S>(id, Ok(b)).1[i],
{
}

/// The backend changes only while nothing is in hand, and only to the one whose
/// entry was chosen in the menu.
pub proof fn law_backend_changes_only_while_idle<G, L, S>(app: AppView<G, L>, event: EventView<S>)
    ensures
        app.step(event).0.backends != app.backends ==> {
            &&& app.machine.state is Idle
            &&& event matches EventView::Menu { id }
            &&& app.tray matches Some(t)
            &&& t.backend_of(id) == Some(app.step(event).0.backends.active)
        },
        app.step(event).0.backends.groq == app.backends.groq,
        app.step(event).0.backends.local == app.backends.local,
{
}

/// From the press to the result, the backend stays: a clip is transcribed with
/// the backend that was in use when its recording started.
pub proof fn law_backend_stays_during_a_recording<G, L, S>(
    app: AppView<G, L>,
    events: Seq<EventView<S>>,
)
    requires
        forall|n: int|
            0 <= n < events.len() ==> !(#[trigger] app.after_all(events.take(n)).machine.state
                is Idle),
    ensures
        app.after_all(events).backends == app.backends,
    decreases events.len(),
{
    if events.len() > 0 {
        let before = events.drop_last();
        assert forall|n: int| 0 <= n < before.len() implies !(#[trigger] app.after_all(
            before.take(n),
        ).machine.state is Idle) by {
            assert(before.take(n) =~= events.take(n));
        }
        law_backend_stays_during_a_recording(app, before);
        assert(events.take(events.len() - 1) =~= before);
    }
}

/// Only a clip that is long and loud enough is dispatched: once, under a new id,
/// and to the backend in use.
pub proof fn law_dispatch<G, L, S>(
    app: AppView<G, L>,
    event: EventView<S>,
    id: u64,
    backend: Backend,
    clip: ClipView<S>,
)
    requires
        app.machine.gen_id < u64::MAX,
        app.step(event).1.contains(EffectView::Dispatch { id, backend, clip }),
    ensures
        app.machine.state is Finalizing,
        id == app.machine.gen_id + 1,
        backend == app.backends.active,
        event matches EventView::AudioCaptured { clip: c, loud } && c == clip && preprocess::gate(
            clip.samples.len(),
            clip.sample_rate,
            clip.channels,
            loud,
        ),
        app.step(event).1.len() == 1,
{
}

/// The program ends only when the entry that quits is chosen.
pub proof fn law_only_quit_exits<G, L, S>(app: AppView<G, L>, event: EventView<S>)
    ensures
        app.step(event).1.contains(EffectView::Exit) <==> (app.tray matches Some(t) && event == (
        EventView::<S>::Menu { id: t.quit_id })),
{
    if let Some(t) = app.tray {
        if event == (EventView::<S>::Menu { id: t.quit_id }) {
            assert(app.step(event).1[0] == EffectView::<S>::Exit);
        }
    }
}

/// A failed transcription is not fatal: it is logged, the program is idle again,
/// and nothing but the tooltip tells of it.
pub proof fn law_failure_is_not_fatal<G, L, S>(app: AppView<G, L>, message: Seq<char>)
    requires
        app.machine.state is Transcribing,
        app.machine.gen_id <= u64::MAX,
    ensures
        ({
            let (next, effects) = app.transcribed::<S>(app.machine.gen_id as u64, Err(message));
            &&& next.machine.state is Idle
            &&& next.backends == app.backends
            &&& effects[0] == (EffectView::<S>::Log {
                level: Level::Warn,
                line: "transcription failed: "@ + message,
            })
            &&& !effects.contains(EffectView::Exit)
            &&& app.tray is Some ==> effects.contains(
                EffectView::Transient("transcription failed"@),
            )
        }),
{
    let (next, effects) = app.transcribed::<S>(app.machine.gen_id as u64, Err(message));
    if app.tray is Some {
        assert(effects[1] == EffectView::<S>::Transient("transcription failed"@));
    }
}

impl<G, L> AppView<G, L> {
    /// The open stream of the audio thread after a list of events, where none was
    /// open before and the thread has carried out what they asked of it:
    /// `outcomes` says, for each event that opens the microphone, what came of it.
    pub open spec fn microphone<S>(
        self,
        events: Seq<EventView<S>>,
        outcomes: Seq<OpenOutcome>,
    ) -> Option<(u32, u16)>
        decreases events.len(),
    {
        if events.len() == 0 {
            None
        } else {
            let open = self.microphone(events.drop_last(), outcomes);
            let effects = self.after_all(events.drop_last()).step(events.last()).1;
            if effects.contains(EffectView::StartCapture) {
                if capture::capture_step(open, AudioCommand::Start) is Open {
                    capture::after_open(outcomes[events.len() - 1])
                } else {
                    open
                }
            } else if effects.contains(EffectView::StopCapture) {
                capture::after_command(open, AudioCommand::Stop)
            } else {
                open
            }
        }
    }
}

/// The microphone is open only while the hotkey is held, that is while the
/// program is recording, and then the tray was told to show it.
pub proof fn law_microphone_open_only_while_held<G, L, S>(
    app: AppView<G, L>,
    events: Seq<EventView<S>>,
    outcomes: Seq<OpenOutcome>,
)
    requires
        app.tray_is_right(),
    ensures
        app.microphone(events, outcomes) is Some ==> {
            &&& app.after_all(events).machine.state is Recording
            &&& app.after_all(events).tray matches Some(t) ==> t.recording
        },
    decreases events.len(),
{
    law_tray_shows_the_state(app, events);
    if events.len() > 0 {
        let before = events.drop_last();
        law_microphone_open_only_while_held(app, before, outcomes);
        law_only_the_hotkey_records(app.after_all(before), events.last());
    }
}

/// What is done, typed, shown and logged does not depend on what a backend
/// holds, such as the API key: with another client in its place every effect is
/// the same.
pub proof fn law_effects_do_not_show_the_key<G, L, S>(
    app: AppView<G, L>,
    other: Option<G>,
    event: EventView<S>,
)
    requires
        other is Some <==> app.backends.groq is Some,
    ensures
        (AppView { backends: BackendsView { groq: other, ..app.backends }, ..app }).step(event).1
            == app.step(event).1,
{
}

/// What each input makes of each state, and what it asks for. An input that does not
/// belong to the state changes nothing.
pub proof fn law_machine_case_by_case(machine: MachineView, pass: bool, id: u64)
    requires
        machine.gen_id < u64::MAX,
    ensures
        machine.state is Idle ==> machine.press().0.state is Recording && machine.press().1
            is StartCapture,
        !(machine.state is Idle) ==> machine.press().0 == machine && machine.press().1 is Ignore,
        machine.state is Recording ==> machine.release().0.state is Finalizing
            && machine.release().1 is StopCapture,
        !(machine.state is Recording) ==> machine.release().0 == machine && machine.release().1
            is Ignore,
        machine.state is Finalizing && pass ==> {
            &&& machine.captured(pass).0.state is Transcribing
            &&& machine.captured(pass).0.gen_id == machine.gen_id + 1
            &&& machine.captured(pass).1 matches CapturedAction::Dispatch(n) && n == machine.gen_id
                + 1
        },
        machine.state is Finalizing && !pass ==> {
            &&& machine.captured(pass).0.state is Idle
            &&& machine.captured(pass).0.gen_id == machine.gen_id
            &&& machine.captured(pass).1 is DropClip
        },
        !(machine.state is Finalizing) ==> machine.captured(pass).0 == machine && machine.captured(
            pass,
        ).1 is Ignore,
        machine.state is Transcribing ==> {
            &&& machine.transcribed(id).0.state is Idle
            &&& machine.transcribed(id).1 is Current <==> id == machine.gen_id
            &&& machine.transcribed(id).1 is Stale <==> id != machine.gen_id
        },
        !(machine.state is Transcribing) ==> machine.transcribed(id).0 == machine
            && machine.transcribed(id).1 is Ignore,
        machine.press().0.gen_id == machine.gen_id,
        machine.release().0.gen_id == machine.gen_id,
        machine.transcribed(id).0.gen_id == machine.gen_id,
{
}

/// The transcript of the clip in hand is typed, whatever its length, unless it has no
/// character from code point 32 on other than 127: then exactly one effect types, and
/// it types the sanitized transcript. The first effect logs its length.
pub proof fn law_current_transcript_is_typed<G, L, S>(
    app: AppView<G, L>,
    id: u64,
    transcript: Seq<char>,
    i: int,
) -> (steps: Seq<StepView>)
    requires
        app.machine.state is Transcribing,
        app.machine.gen_id == id,
        0 <= i < transcript.len(),
        transcript[i] as u32 >= 32,
        transcript[i] as u32 != 127,
    ensures
        ({
            let event = EventView::<S>::Transcribed { id, result: Ok(transcript) };
            let (next, effects) = app.step(event);
            &&& effects.len() == 2
            &&& effects[0] == (EffectView::<S>::Log {
                level: Level::Info,
                line: logging::description(transcript.len()),
            })
            &&& effects[1] == EffectView::<S>::Inject(steps)
            &&& inject::typed(steps) == inject::sanitized(transcript)
            &&& steps == inject::planned(transcript)
            &&& next.machine.state is Idle
            &&& next.machine.gen_id == app.machine.gen_id
            &&& next.tray == app.tray
            &&& next.backends == app.backends
        }),
{
    let clean = inject::sanitized(transcript);
    let before = transcript.take(i);
    let after = transcript.skip(i + 1);
    inject::law_sanitize_by_code_point(transcript[i]);
    inject::law_sanitize_distributes(before, seq![transcript[i]]);
    inject::law_sanitize_distributes(before + seq![transcript[i]], after);
    assert(before + seq![transcript[i]] + after =~= transcript);
    assert(clean.len() > 0);
    inject::law_plan_starts_and_ends_with_typing(transcript);
    inject::law_plan_types_the_sanitized_text(transcript);
    inject::planned(transcript)
}

/// A transcript in which nothing is left to type is logged by its length and nothing
/// else is done.
pub proof fn law_blank_transcript_is_only_logged<G, L, S>(
    app: AppView<G, L>,
    id: u64,
    transcript: Seq<char>,
)
    requires
        app.machine.state is Transcribing,
        app.machine.gen_id == id,
        inject::sanitized(transcript).len() == 0,
    ensures
        app.step(EventView::<S>::Transcribed { id, result: Ok(transcript) }).1 == seq![
            EffectView::<S>::Log {
                level: Level::Info,
                line: logging::description(transcript.len()),
            },
        ],
{
    inject::law_plan_starts_and_ends_with_typing(transcript);
}

/// A failed transcription is logged with its message, whole, and noted in the tooltip
/// where there is a tray; nothing is typed.
pub proof fn law_failed_transcription_is_told<G, L, S>(
    app: AppView<G, L>,
    id: u64,
    message: Seq<char>,
)
    requires
        app.machine.state is Transcribing,
        app.machine.gen_id == id,
    ensures
        ({
            let (next, effects) = app.step(
                EventView::<S>::Transcribed { id, result: Err(message) },
            );
            &&& effects[0] matches EffectView::Log { level, line } && level == Level::Warn
                && line.skip(22) == message
            &&& app.tray is None ==> effects.len() == 1 && next.tray is None
            &&& app.tray matches Some(t) ==> {
                &&& effects.len() == 2
                &&& effects[1] == EffectView::<S>::Transient("transcription failed"@)
                &&& next.tray == Some(t.with_notice("transcription failed"@))
            }
            &&& next.machine.state is Idle
            &&& next.machine.gen_id == app.machine.gen_id
            &&& next.backends == app.backends
        }),
{
    reveal_strlit("transcription failed: ");
    assert(("transcription failed: "@ + message).skip(22) =~= message);
}

/// The result of another clip than the one in hand is logged under its id and
/// dropped, whatever it is.
pub proof fn law_stale_result_is_dropped<G, L, S>(
    app: AppView<G, L>,
    id: u64,
    result: Result<Seq<char>, Seq<char>>,
)
    requires
        app.machine.state is Transcribing,
        app.machine.gen_id != id,
    ensures
        ({
            let (next, effects) = app.step(EventView::<S>::Transcribed { id, result });
            &&& effects.len() == 1
            &&& effects[0] matches EffectView::Log { level, line } && level == Level::Info
                && line.subrange(39, 39 + text::decimal(id as nat).len() as int)
                == text::decimal(id as nat)
            &&& next.machine.state is Idle
            &&& next.machine.gen_id == app.machine.gen_id
            &&& next.tray == app.tray
            &&& next.backends == app.backends
        }),
{
    reveal_strlit("dropped stale transcription result (id ");
    let number = text::decimal(id as nat);
    let line = "dropped stale transcription result (id "@ + number + ")"@;
    assert(line.subrange(39, 39 + number.len() as int) =~= number);
}

/// A press of the hotkey while nothing is in hand starts the microphone and shows it;
/// a release while recording stops it and shows that.
pub proof fn law_hotkey_starts_and_stops<G, L, S>(app: AppView<G, L>, state: HotkeyState)
    requires
        state is Pressed ==> app.machine.state is Idle,
        state is Released ==> app.machine.state is Recording,
    ensures
        ({
            let (next, effects) = app.step(
                EventView::<S>::Hotkey { id: app.hotkey_id, state },
            );
            &&& state is Pressed ==> effects[0] is StartCapture && next.machine.state is Recording
            &&& state is Released ==> effects[0] is StopCapture && next.machine.state is Finalizing
            &&& app.tray is None ==> effects.len() == 1 && next.tray is None
            &&& app.tray matches Some(t) ==> {
                &&& effects.len() == 2
                &&& effects[1] == EffectView::<S>::ShowRecording(state is Pressed)
                &&& next.tray == Some(t.with_recording(state is Pressed))
            }
            &&& next.machine.gen_id == app.machine.gen_id
            &&& next.backends == app.backends
        }),
{
}

/// An event that is none of the program's business changes nothing and asks for
/// nothing: another hotkey, a press while something is in hand, a release, a clip or a
/// result that nothing waits for, a menu before there is a tray, an entry that is no
/// backend's, a backend chosen while something is in hand, a click on the icon.
pub proof fn law_idle_events_do_nothing<G, L, S>(app: AppView<G, L>, event: EventView<S>)
    requires
        match event {
            EventView::TrayIcon => true,
            EventView::Hotkey { id, state } => id != app.hotkey_id || (state is Pressed
                && !(app.machine.state is Idle)) || (state is Released && !(app.machine.state
                is Recording)),
            EventView::AudioCaptured { .. } => !(app.machine.state is Finalizing),
            EventView::Transcribed { .. } => !(app.machine.state is Transcribing),
            EventView::Menu { id } => match app.tray {
                None => true,
                Some(t) => id != t.quit_id && (!(app.machine.state is Idle) || (id != t.local_id
                    && id != t.groq_id)),
            },
        },
    ensures
        app.step(event).0 == app,
        app.step(event).1 == Seq::<EffectView<S>>::empty(),
{
}

/// A clip that was waited for is dispatched, once, as it is, under the next id and to
/// the backend in use, if and only if it is loud and its frames fill 350 milliseconds;
/// otherwise it is dropped with a line in the log, and the program is idle.
pub proof fn law_clip_is_dispatched_or_dropped<G, L, S>(
    app: AppView<G, L>,
    clip: ClipView<S>,
    loud: bool,
)
    requires
        app.machine.state is Finalizing,
        app.machine.gen_id < u64::MAX,
    ensures
        ({
            let (next, effects) = app.step(EventView::<S>::AudioCaptured { clip, loud });
            let kept = loud && clip.sample_rate > 0 && clip.channels > 0 && 1000 * (
            clip.samples.len() as int / clip.channels as int) >= 350 * clip.sample_rate;
            &&& effects.len() == 1
            &&& kept ==> {
                &&& effects[0] matches EffectView::Dispatch { id, backend, clip: c } && id
                    == app.machine.gen_id + 1 && backend == app.backends.active && c == clip
                &&& next.machine.state is Transcribing
                &&& next.machine.gen_id == app.machine.gen_id + 1
            }
            &&& !kept ==> {
                &&& effects[0] is Log
                &&& next.machine.state is Idle
                &&& next.machine.gen_id == app.machine.gen_id
            }
            &&& next.tray == app.tray
            &&& next.backends == app.backends
        }),
{
    preprocess::law_long_loud_clips_are_kept(
        clip.samples.len(),
        clip.sample_rate,
        clip.channels,
        loud,
    );
}

/// A backend chosen in the menu while nothing is in hand is used from then on where it
/// can be had, and the checkmark moves to it; where it cannot, a notice names it, the
/// backend in use stays, and so does the checkmark. The one in use already is left as
/// it is.
pub proof fn law_menu_switches_the_backend<G, L, S>(
    app: AppView<G, L>,
    tray: TrayView,
    id: Seq<char>,
    target: Backend,
)
    requires
        app.tray == Some(tray),
        app.machine.state is Idle,
        id != tray.quit_id,
        tray.local_id != tray.groq_id,
        target is Local ==> id == tray.local_id,
        target is Groq ==> id == tray.groq_id,
    ensures
        ({
            let (next, effects) = app.step(EventView::<S>::Menu { id });
            let there = (target is Groq && app.backends.groq is Some) || (target is Local
                && app.backends.local is Some);
            &&& target == app.backends.active ==> next == app && effects.len() == 0
            &&& target != app.backends.active && there ==> {
                &&& next.backends.active == target
                &&& next.tray == Some(tray.with_active(target))
                &&& effects.len() == 2
                &&& effects[0] == EffectView::<S>::ShowActive(target)
                &&& effects[1] matches EffectView::Log { level, line } && level == Level::Info
                    && line.skip(20) == target.spec_name()
            }
            &&& target != app.backends.active && !there ==> {
                &&& next.backends == app.backends
                &&& next.tray == Some(tray.with_active(app.backends.active))
                &&& effects.len() == 2
                &&& effects[0] == EffectView::<S>::ShowActive(app.backends.active)
                &&& effects[1] matches EffectView::Notify { title, body } && title
                    == "Backend unavailable"@ && body.subrange(
                    4,
                    4 + target.spec_name().len() as int,
                ) == target.spec_name()
            }
            &&& next.machine == app.machine
            &&& next.backends.groq == app.backends.groq
            &&& next.backends.local == app.backends.local
        }),
{
    reveal_strlit("switched backend to ");
    reveal_strlit("The ");
    let name = target.spec_name();
    assert(("switched backend to "@ + name).skip(20) =~= name);
    assert(unavailable(target).subrange(4, 4 + name.len() as int) =~= name);
}

/// No event changes which hotkey is the program's, or the notices that wait for the
/// tray, or the ids of the menu entries.
pub proof fn law_what_no_event_changes<G, L, S>(app: AppView<G, L>, event: EventView<S>)
    ensures
        app.step(event).0.hotkey_id == app.hotkey_id,
        app.step(event).0.pending_notices == app.pending_notices,
        app.step(event).0.tray is Some <==> app.tray is Some,
        app.tray matches Some(t) ==> {
            &&& app.step(event).0.tray->0.quit_id == t.quit_id
            &&& app.step(event).0.tray->0.local_id == t.local_id
            &&& app.step(event).0.tray->0.groq_id == t.groq_id
        },
{
}

/// A start leaves a notice for a missing microphone, with the error in words, and one
/// for a fallback, with its notice, in this order and no others.
pub proof fn law_start_notices(
    microphone: Result<(), AudioError>,
    fallback: Option<String>,
)
    ensures
        ({
            let notices = start_notices(microphone, fallback);
            &&& notices.len() == (if microphone is Err {
                1int
            } else {
                0
            }) + (if fallback is Some {
                1int
            } else {
                0
            })
            &&& microphone matches Err(e) ==> notices[0] == (
                "Microphone unavailable"@,
                e@.spec_message(),
            )
            &&& fallback matches Some(n) ==> notices.last() == ("Backend fallback"@, n@)
        }),
{
}

/// Events are seen as they are.
pub proof fn law_events_are_seen_whole<S>(event: UserEvent<S>)
    ensures
        event is TrayIcon <==> event@ is TrayIcon,
        event matches UserEvent::Menu { id } ==> event@ == (EventView::<S>::Menu { id: id@ }),
        event matches UserEvent::Hotkey { id, state } ==> event@ == (EventView::<S>::Hotkey {
            id,
            state,
        }),
        event matches UserEvent::AudioCaptured { clip, loud } ==> event@ == (
        EventView::<S>::AudioCaptured { clip: clip@, loud }),
        event matches UserEvent::Transcribed { id, result: Ok(t) } ==> event@ == (
        EventView::<S>::Transcribed { id, result: Ok(t@) }),
        event matches UserEvent::Transcribed { id, result: Err(m) } ==> event@ == (
        EventView::<S>::Transcribed { id, result: Err(m@) }),
{
}

/// Effects are seen as they are, each in its place.
pub proof fn law_effects_are_seen_whole<S>(effects: Seq<Effect<S>>, i: int)
    requires
        0 <= i < effects.len(),
    ensures
        ({
            let seen = effect_views(effects)[i];
            &&& effect_views(effects).len() == effects.len()
            &&& effects[i] is StartCapture <==> seen is StartCapture
            &&& effects[i] is StopCapture <==> seen is StopCapture
            &&& effects[i] is Exit <==> seen is Exit
            &&& effects[i] matches Effect::ShowRecording(on) ==> seen == EffectView::<
                S,
            >::ShowRecording(on)
            &&& effects[i] matches Effect::ShowActive(b) ==> seen == EffectView::<S>::ShowActive(b)
            &&& effects[i] matches Effect::Transient(m) ==> seen == EffectView::<S>::Transient(m@)
            &&& effects[i] matches Effect::Notify { title, body } ==> seen == (EffectView::<
                S,
            >::Notify { title: title@, body: body@ })
            &&& effects[i] matches Effect::Dispatch { id, backend, clip } ==> seen == (EffectView::<
                S,
            >::Dispatch { id, backend, clip: clip@ })
            &&& effects[i] matches Effect::Inject(steps) ==> seen == EffectView::<S>::Inject(
                inject::step_views(steps@),
            )
            &&& effects[i] matches Effect::Log { level, line } ==> seen == (EffectView::<S>::Log {
                level,
                line: line@,
            })
        }),
{
}

/// Notices are seen as they are, each in its place.
pub proof fn law_notices_are_seen_whole(notices: Seq<(String, String)>, i: int)
    requires
        0 <= i < notices.len(),
    ensures
        notice_views(notices).len() == notices.len(),
        notice_views(notices)[i] == (notices[i].0@, notices[i].1@),
{
}

}
