//! The tray.

use xiuxiu::config::Backend;
use xiuxiu::tray::{solid_icon, state_icon, Tray, ICON_SIZE};

fn tray() -> Tray {
    Tray::new(Backend::Groq, "q".to_string(), "l".to_string(), "g".to_string())
}

#[test]
fn menu_entries_are_told_apart() {
    let t = tray();
    assert!(t.is_quit("q"));
    assert!(!t.is_quit("l"));
    assert_eq!(t.backend_for("l"), Some(Backend::Local));
    assert_eq!(t.backend_for("g"), Some(Backend::Groq));
    assert_eq!(t.backend_for("q"), None);
}

#[test]
fn exactly_one_backend_is_checked() {
    let mut t = tray();
    assert!(t.is_checked(Backend::Groq) && !t.is_checked(Backend::Local));
    t.set_active(Backend::Local);
    assert!(!t.is_checked(Backend::Groq) && t.is_checked(Backend::Local));
    t.set_recording(true);
    assert!(!t.is_checked(Backend::Groq) && t.is_checked(Backend::Local));
}

#[test]
fn tooltips_follow_the_state() {
    let mut t = tray();
    assert_eq!(t.tooltip(), "Xiuxiu — idle");
    t.set_recording(true);
    assert_eq!(t.tooltip(), "Xiuxiu — recording");
    t.set_recording(false);
    assert_eq!(t.tooltip(), "Xiuxiu — idle");
    t.transient("transcription failed");
    assert_eq!(t.tooltip(), "Xiuxiu — transcription failed");
    assert!(!t.recording());
}

#[test]
fn icons_are_of_one_colour() {
    let icon = solid_icon(1, 2, 3);
    assert_eq!(icon.len(), (ICON_SIZE * ICON_SIZE * 4) as usize);
    assert!(icon.chunks(4).all(|p| p == [1, 2, 3, 0xff]));
    assert_eq!(state_icon(true)[..4], [0xd6, 0x2c, 0x2c, 0xff]);
    assert_eq!(state_icon(false)[4092..], [0x6c, 0x6c, 0x6c, 0xff]);
}
