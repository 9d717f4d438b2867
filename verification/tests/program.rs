//! The program as a whole: events in, effects out.

use xiuxiu::app::{
    injection_failed, startup_error, App, AppState, Effect, HotkeyState, StartupStep,
    UserEvent,
};
use xiuxiu::audio::capture::{
    AudioCommand, AudioError, CaptureStep, CapturedAudio, OpenOutcome, Recorder,
};
use xiuxiu::config::Backend;
use xiuxiu::inject::{InjectError, InjectStep};
use xiuxiu::transcription::{ActiveBackend, Backends};

const HOTKEY: u32 = 7;

type Program = App<u8, char>;

fn program(groq: Option<u8>, local: Option<char>, active: Backend) -> Program {
    match Backends::start(active, groq, local) {
        Ok((backends, fallback)) => App::new(backends, HOTKEY, Ok(()), fallback),
        Err(e) => panic!("{}", e.message()),
    }
}

fn with_tray(mut app: Program) -> Program {
    app.install_tray("quit".to_string(), "local".to_string(), "groq".to_string());
    app
}

fn press(app: &mut Program) -> Vec<Effect<i16>> {
    app.user_event(UserEvent::Hotkey { id: HOTKEY, state: HotkeyState::Pressed })
}

fn release(app: &mut Program) -> Vec<Effect<i16>> {
    app.user_event(UserEvent::Hotkey { id: HOTKEY, state: HotkeyState::Released })
}

fn menu(app: &mut Program, id: &str) -> Vec<Effect<i16>> {
    app.user_event(UserEvent::Menu { id: id.to_string() })
}

fn second() -> CapturedAudio<i16> {
    CapturedAudio { samples: vec![9; 16_000], sample_rate: 16_000, channels: 1 }
}

fn captured(app: &mut Program, clip: CapturedAudio<i16>, loud: bool) -> Vec<Effect<i16>> {
    app.user_event(UserEvent::AudioCaptured { clip, loud })
}

fn transcribed(app: &mut Program, id: u64, result: Result<&str, &str>) -> Vec<Effect<i16>> {
    let result = match result {
        Ok(t) => Ok(t.to_string()),
        Err(m) => Err(m.to_string()),
    };
    app.user_event(UserEvent::Transcribed { id, result })
}

fn describe(effects: &[Effect<i16>]) -> Vec<String> {
    effects
        .iter()
        .map(|e| match e {
            Effect::StartCapture => "start".to_string(),
            Effect::StopCapture => "stop".to_string(),
            Effect::ShowRecording(on) => format!("recording {on}"),
            Effect::ShowActive(b) => format!("active {}", b.name()),
            Effect::Transient(m) => format!("transient {m}"),
            Effect::Notify { title, body } => format!("notify {title}: {body}"),
            Effect::Dispatch { id, backend, clip } => {
                format!("dispatch {id} {} {}", backend.name(), clip.samples.len())
            }
            Effect::Inject(steps) => format!("inject {}", typed(steps)),
            Effect::Log { level, line } => format!("{level:?} {line}"),
            Effect::Exit => "exit".to_string(),
        })
        .collect()
}

fn typed(steps: &[InjectStep]) -> String {
    steps
        .iter()
        .map(|s| match s {
            InjectStep::Type(t) => t.as_str(),
            InjectStep::Pause(_) => "",
        })
        .collect()
}

#[test]
fn a_dictation_from_press_to_typing() {
    let mut app = with_tray(program(Some(1), None, Backend::Groq));
    assert_eq!(describe(&press(&mut app)), ["start", "recording true"]);
    assert!(app.tray().unwrap().recording());
    assert_eq!(app.tray().unwrap().tooltip(), "Xiuxiu — recording");
    assert_eq!(describe(&release(&mut app)), ["stop", "recording false"]);
    assert!(!app.tray().unwrap().recording());
    assert_eq!(describe(&captured(&mut app, second(), true)), ["dispatch 1 Groq 16000"]);
    assert_eq!(
        describe(&transcribed(&mut app, 1, Ok("rm -rf /\n"))),
        ["Info transcript: 9 chars", "inject rm -rf /"]
    );
    assert_eq!(app.machine().state(), AppState::Idle);
}

#[test]
fn only_its_own_hotkey_counts() {
    let mut app = with_tray(program(Some(1), None, Backend::Groq));
    let other: Vec<Effect<i16>> =
        app.user_event(UserEvent::Hotkey { id: HOTKEY + 1, state: HotkeyState::Pressed });
    assert!(other.is_empty());
    assert_eq!(app.machine().state(), AppState::Idle);
    press(&mut app);
    assert!(press(&mut app).is_empty());
    let other: Vec<Effect<i16>> =
        app.user_event(UserEvent::Hotkey { id: HOTKEY + 1, state: HotkeyState::Released });
    assert!(other.is_empty());
    assert_eq!(app.machine().state(), AppState::Recording);
}

#[test]
fn a_short_or_silent_clip_is_dropped() {
    let mut app = with_tray(program(Some(1), None, Backend::Groq));
    for (len, loud) in [(16_000usize, false), (5_599, true), (0, true)] {
        press(&mut app);
        release(&mut app);
        let clip = CapturedAudio { samples: vec![1; len], sample_rate: 16_000, channels: 1 };
        assert_eq!(
            describe(&captured(&mut app, clip, loud)),
            ["Info dropped clip (too short or silent)"]
        );
        assert_eq!(app.machine().state(), AppState::Idle);
    }
    press(&mut app);
    release(&mut app);
    let clip = CapturedAudio { samples: vec![1; 5_600], sample_rate: 16_000, channels: 1 };
    assert_eq!(describe(&captured(&mut app, clip, true)), ["dispatch 1 Groq 5600"]);
}

#[test]
fn a_clip_that_was_not_asked_for_is_ignored() {
    let mut app = with_tray(program(Some(1), None, Backend::Groq));
    assert!(captured(&mut app, second(), true).is_empty());
    assert!(transcribed(&mut app, 0, Ok("hi")).is_empty());
}

#[test]
fn a_failed_transcription_is_told_and_forgotten() {
    let mut app = with_tray(program(Some(1), None, Backend::Groq));
    press(&mut app);
    release(&mut app);
    captured(&mut app, second(), true);
    assert_eq!(
        describe(&transcribed(&mut app, 1, Err("request timed out"))),
        [
            "Warn transcription failed: request timed out",
            "transient transcription failed"
        ]
    );
    assert_eq!(app.tray().unwrap().tooltip(), "Xiuxiu — transcription failed");
    assert_eq!(describe(&press(&mut app)), ["start", "recording true"]);
}

#[test]
fn a_stale_result_is_logged_and_dropped() {
    let mut app = with_tray(program(Some(1), None, Backend::Groq));
    press(&mut app);
    release(&mut app);
    captured(&mut app, second(), true);
    assert_eq!(
        describe(&transcribed(&mut app, 0, Ok("old"))),
        ["Info dropped stale transcription result (id 0)"]
    );
    assert!(transcribed(&mut app, 1, Ok("new")).is_empty());
}

#[test]
fn a_transcript_of_control_characters_types_nothing() {
    let mut app = with_tray(program(Some(1), None, Backend::Groq));
    press(&mut app);
    release(&mut app);
    captured(&mut app, second(), true);
    assert_eq!(
        describe(&transcribed(&mut app, 1, Ok("\n\r\u{1b}"))),
        ["Info transcript: 3 chars"]
    );
}

#[test]
fn the_log_tells_transcripts_of_one_length_not_apart() {
    let mut lines = Vec::new();
    for text in ["my password", "a nice song"] {
        let mut app = with_tray(program(Some(1), None, Backend::Groq));
        press(&mut app);
        release(&mut app);
        captured(&mut app, second(), true);
        let effects = describe(&transcribed(&mut app, 1, Ok(text)));
        lines.push(effects[0].clone());
        assert_eq!(effects[1], format!("inject {text}"));
    }
    assert_eq!(lines, ["Info transcript: 11 chars", "Info transcript: 11 chars"]);
}

#[test]
fn the_menu_switches_the_backend_while_idle() {
    let mut app = with_tray(program(Some(1), Some('m'), Backend::Groq));
    assert!(app.tray().unwrap().is_checked(Backend::Groq));
    assert_eq!(
        describe(&menu(&mut app, "local")),
        ["active Local", "Info switched backend to Local"]
    );
    assert_eq!(app.active(), Backend::Local);
    assert!(matches!(app.current(), ActiveBackend::Local('m')));
    assert!(app.tray().unwrap().is_checked(Backend::Local));
    assert!(!app.tray().unwrap().is_checked(Backend::Groq));
    assert!(menu(&mut app, "local").is_empty());
    press(&mut app);
    assert!(menu(&mut app, "groq").is_empty());
    assert_eq!(app.active(), Backend::Local);
    release(&mut app);
    assert_eq!(describe(&captured(&mut app, second(), true)), ["dispatch 1 Local 16000"]);
    assert!(menu(&mut app, "groq").is_empty());
    transcribed(&mut app, 1, Ok("x"));
    menu(&mut app, "groq");
    assert!(matches!(app.current(), ActiveBackend::Groq(1)));
}

#[test]
fn a_backend_that_is_not_there_is_refused() {
    let mut app = with_tray(program(Some(1), None, Backend::Groq));
    assert_eq!(
        describe(&menu(&mut app, "local")),
        [
            "active Groq",
            "notify Backend unavailable: The Local backend is not available (model not loaded). \
             Staying on the current backend."
        ]
    );
    assert_eq!(app.active(), Backend::Groq);
    assert!(app.tray().unwrap().is_checked(Backend::Groq));
}

#[test]
fn quit_exits_and_nothing_else_does() {
    let mut app = with_tray(program(Some(1), None, Backend::Groq));
    assert!(menu(&mut app, "separator").is_empty());
    let clicked: Vec<Effect<i16>> = app.user_event(UserEvent::TrayIcon);
    assert!(clicked.is_empty());
    assert_eq!(describe(&menu(&mut app, "quit")), ["exit"]);
}

#[test]
fn without_a_tray_there_is_no_menu_and_no_icon() {
    let mut app = program(Some(1), Some('m'), Backend::Groq);
    assert!(app.tray().is_none());
    assert!(menu(&mut app, "quit").is_empty());
    assert!(menu(&mut app, "local").is_empty());
    assert_eq!(describe(&press(&mut app)), ["start"]);
    assert_eq!(describe(&release(&mut app)), ["stop"]);
    captured(&mut app, second(), true);
    assert_eq!(
        describe(&transcribed(&mut app, 1, Err("no"))),
        ["Warn transcription failed: no"]
    );
}

#[test]
fn notices_of_the_start_wait_for_the_tray() {
    let (backends, fallback) = match Backends::start(Backend::Local, Some(1u8), None::<char>) {
        Ok(started) => started,
        Err(_) => panic!("there is a backend"),
    };
    let mut app = App::new(backends, HOTKEY, Err(AudioError::NoInputDevice), fallback);
    assert!(app.needs_tray(true));
    assert!(!app.needs_tray(false));
    let notices = app.install_tray("q".to_string(), "l".to_string(), "g".to_string());
    assert_eq!(
        notices,
        [
            (
                "Microphone unavailable".to_string(),
                "no default input device (microphone) available".to_string()
            ),
            (
                "Backend fallback".to_string(),
                "Local model unavailable; falling back to Groq.".to_string()
            ),
        ]
    );
    assert!(!app.needs_tray(true));
    assert!(app.tray().unwrap().is_checked(Backend::Groq));
    let mut quiet = program(Some(1), None, Backend::Groq);
    assert!(quiet.install_tray(String::new(), String::new(), String::new()).is_empty());
}

#[test]
fn startup_errors_name_the_step() {
    assert_eq!(
        startup_error(StartupStep::Configuration, "no"),
        "loading configuration: no"
    );
    assert_eq!(
        startup_error(StartupStep::Backend, "no"),
        "initializing the transcription backend: no"
    );
    assert_eq!(
        startup_error(StartupStep::EventLoop, "no"),
        "building the winit event loop: no"
    );
    assert_eq!(
        startup_error(StartupStep::HotkeyManager, "no"),
        "creating the global hotkey manager: no"
    );
    assert_eq!(
        startup_error(StartupStep::Run, "no"),
        "running the winit event loop: no"
    );
}

#[test]
fn a_failed_injection_is_logged() {
    assert_eq!(
        injection_failed(&InjectError::Type("x".to_string())),
        "text injection failed: failed to type text: x"
    );
    assert_eq!(
        injection_failed(&InjectError::Init("x".to_string())),
        "text injection failed: failed to initialize the input backend: x"
    );
}

#[test]
fn the_microphone_follows_the_hotkey() {
    let mut app = with_tray(program(Some(1), None, Backend::Groq));
    let mut recorder = Recorder::new();
    let states = [
        (HotkeyState::Released, false),
        (HotkeyState::Pressed, true),
        (HotkeyState::Pressed, true),
        (HotkeyState::Released, false),
        (HotkeyState::Pressed, false),
    ];
    for (state, open) in states {
        let effects: Vec<Effect<i16>> = app.user_event(UserEvent::Hotkey { id: HOTKEY, state });
        for effect in effects {
            let command = match effect {
                Effect::StartCapture => AudioCommand::Start,
                Effect::StopCapture => AudioCommand::Stop,
                _ => continue,
            };
            if recorder.on_command(command) == CaptureStep::Open {
                recorder.on_opened(OpenOutcome::Playing { sample_rate: 48_000, channels: 1 });
            }
        }
        assert_eq!(recorder.is_open(), open);
        assert_eq!(app.tray().unwrap().recording(), open);
    }
}

#[test]
fn another_key_changes_no_effect() {
    let run = |key: u8| {
        let mut app = with_tray(program(Some(key), None, Backend::Groq));
        let mut all = describe(&press(&mut app));
        all.extend(describe(&menu(&mut app, "local")));
        all.extend(describe(&release(&mut app)));
        all.extend(describe(&captured(&mut app, second(), true)));
        all.extend(describe(&transcribed(&mut app, 1, Ok("text"))));
        all.extend(describe(&menu(&mut app, "local")));
        all
    };
    assert_eq!(run(1), run(2));
    assert_eq!(run(1).len(), 9);
}
