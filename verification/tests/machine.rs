//! The state of the recording in hand.

use xiuxiu::app::{
    AppState, CapturedAction, Machine, PressAction, ReleaseAction, ResultAction,
};

#[test]
fn press_from_idle_starts_recording() {
    let mut m = Machine::new();
    assert_eq!(m.on_press(), PressAction::StartCapture);
    assert_eq!(m.state(), AppState::Recording);
}

#[test]
fn full_happy_path_idle_to_inject() {
    let mut m = Machine::new();
    assert_eq!(m.on_press(), PressAction::StartCapture);
    assert_eq!(m.on_release(), ReleaseAction::StopCapture);
    assert_eq!(m.state(), AppState::Finalizing);
    let action = m.on_captured(true);
    assert_eq!(action, CapturedAction::Dispatch(1));
    assert_eq!(m.state(), AppState::Transcribing);
    assert_eq!(m.on_transcribed(1), ResultAction::Current);
    assert_eq!(m.state(), AppState::Idle);
}

#[test]
fn clip_failing_gate_returns_to_idle_without_dispatch() {
    let mut m = Machine::new();
    m.on_press();
    m.on_release();
    assert_eq!(m.on_captured(false), CapturedAction::DropClip);
    assert_eq!(m.state(), AppState::Idle);
}

#[test]
fn press_while_recording_is_ignored() {
    let mut m = Machine::new();
    m.on_press();
    assert_eq!(m.on_press(), PressAction::Ignore);
    assert_eq!(m.state(), AppState::Recording);
}

#[test]
fn press_while_finalizing_or_transcribing_is_ignored() {
    let mut m = Machine::new();
    m.on_press();
    m.on_release();
    assert_eq!(m.on_press(), PressAction::Ignore);
    m.on_captured(true);
    assert_eq!(m.on_press(), PressAction::Ignore);
}

#[test]
fn stale_transcription_result_is_dropped() {
    let mut m = Machine::new();
    m.on_press();
    m.on_release();
    m.on_captured(true);
    assert_eq!(m.on_transcribed(0), ResultAction::Stale);
    assert_eq!(m.state(), AppState::Idle);
}

#[test]
fn audio_captured_while_idle_is_ignored() {
    let mut m = Machine::new();
    assert_eq!(m.on_captured(true), CapturedAction::Ignore);
    assert_eq!(m.state(), AppState::Idle);
}

#[test]
fn release_while_idle_is_noop() {
    let mut m = Machine::new();
    assert_eq!(m.on_release(), ReleaseAction::Ignore);
    assert_eq!(m.state(), AppState::Idle);
}

#[test]
fn switch_allowed_only_while_idle() {
    let mut m = Machine::new();
    assert!(m.can_switch());
    m.on_press();
    assert!(!m.can_switch());
}

#[test]
fn gen_id_increments_per_recording() {
    let mut m = Machine::new();
    m.on_press();
    m.on_release();
    assert_eq!(m.on_captured(true), CapturedAction::Dispatch(1));
    m.on_transcribed(1);
    m.on_press();
    m.on_release();
    assert_eq!(m.on_captured(true), CapturedAction::Dispatch(2));
}

#[test]
fn default_machine_is_a_new_one() {
    let m = Machine::default();
    assert_eq!(m.state(), AppState::Idle);
    assert_eq!(m.gen_id(), 0);
}

#[test]
fn result_of_an_earlier_clip_is_never_current() {
    let mut m = Machine::new();
    for id in 1..=3u64 {
        m.on_press();
        m.on_release();
        assert_eq!(m.on_captured(true), CapturedAction::Dispatch(id));
        assert_eq!(m.gen_id(), id);
        assert_eq!(m.on_transcribed(id - 1), ResultAction::Stale);
        assert_eq!(m.on_transcribed(id), ResultAction::Ignore);
    }
}

#[test]
fn over_a_history_one_recording_is_in_hand() {
    let mut m = Machine::new();
    let (mut started, mut finished, mut ids) = (0, 0, Vec::new());
    for step in 0..200u64 {
        match (step * 7 + step / 5) % 4 {
            0 => {
                if m.on_press() == PressAction::StartCapture {
                    started += 1;
                }
            }
            1 => {
                m.on_release();
            }
            2 => match m.on_captured(step % 3 != 0) {
                CapturedAction::Dispatch(id) => ids.push(id),
                CapturedAction::DropClip => finished += 1,
                CapturedAction::Ignore => {}
            },
            _ => {
                if m.on_transcribed(m.gen_id()) != ResultAction::Ignore {
                    finished += 1;
                }
            }
        }
        let in_hand = if m.state() == AppState::Idle { 0 } else { 1 };
        assert_eq!(started, finished + in_hand);
    }
    let expected: Vec<u64> = (1..=m.gen_id()).collect();
    assert_eq!(ids, expected);
    assert!(ids.len() > 3);
}

#[test]
fn a_dropped_clip_takes_no_id() {
    let mut m = Machine::new();
    m.on_press();
    m.on_release();
    m.on_captured(false);
    assert_eq!(m.gen_id(), 0);
    m.on_press();
    m.on_release();
    assert_eq!(m.on_captured(true), CapturedAction::Dispatch(1));
}

#[test]
fn each_state_takes_only_its_own_input() {
    let mut m = Machine::new();
    assert_eq!(m.on_transcribed(0), ResultAction::Ignore);
    m.on_press();
    assert_eq!(m.on_captured(true), CapturedAction::Ignore);
    assert_eq!(m.on_transcribed(0), ResultAction::Ignore);
    assert_eq!(m.state(), AppState::Recording);
    m.on_release();
    assert_eq!(m.on_release(), ReleaseAction::Ignore);
    assert_eq!(m.on_transcribed(0), ResultAction::Ignore);
    assert_eq!(m.state(), AppState::Finalizing);
    m.on_captured(true);
    assert_eq!(m.on_captured(true), CapturedAction::Ignore);
    assert_eq!(m.on_release(), ReleaseAction::Ignore);
    assert_eq!(m.state(), AppState::Transcribing);
}
