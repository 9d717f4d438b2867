//! The push-to-talk combination.

use global_hotkey::hotkey::{Code, HotKey, Modifiers};
use xiuxiu::config::DEFAULT_HOTKEY;
use xiuxiu::hotkey::{parse_hotkey, registration_error, resolve_hotkey, Hotkey, HotkeyError};

fn id(text: &str) -> u32 {
    match parse_hotkey(text) {
        Ok(h) => {
            assert_eq!(h.text, text);
            assert_eq!(h.key.id(), h.id);
            h.id
        }
        Err(m) => panic!("{m}"),
    }
}

fn error(text: &str) -> String {
    match parse_hotkey(text) {
        Ok(_) => panic!("{text} was accepted"),
        Err(m) => m,
    }
}

fn outside_error(text: &str) -> String {
    text.parse::<HotKey>().unwrap_err().to_string()
}

#[test]
fn the_default_combination_is_ctrl_alt_space() {
    let expected = HotKey::new(Some(Modifiers::CONTROL | Modifiers::ALT), Code::Space);
    assert_eq!(id(DEFAULT_HOTKEY), expected.id());
}

#[test]
fn documented_spellings_are_accepted() {
    let j = HotKey::new(Some(Modifiers::CONTROL | Modifiers::ALT), Code::KeyJ).id();
    assert_eq!(id("Ctrl+Alt+J"), j);
    assert_eq!(id("Control+Option+KeyJ"), j);
    let a = HotKey::new(Some(Modifiers::SUPER | Modifiers::SHIFT), Code::KeyA).id();
    assert_eq!(id("Super+Shift+A"), a);
    assert_eq!(id("Cmd+Shift+A"), a);
    assert_eq!(id("Command + Shift + KeyA"), a);
    assert_eq!(id("Ctrl+Shift+Space"), 34078782);
}

#[test]
fn upper_and_lower_case_make_no_difference() {
    for text in ["Ctrl+Alt+Space", "SUPER+keya", "Control+F5"] {
        assert_eq!(id(text), id(&text.to_lowercase()));
        assert_eq!(id(text), id(&text.to_uppercase()));
    }
}

#[test]
fn what_is_registered_is_what_was_parsed() {
    let parsed = parse_hotkey("ctrl+alt+space").unwrap_or_else(|m| panic!("{m}"));
    assert_eq!(
        parsed.key,
        HotKey::new(Some(Modifiers::CONTROL | Modifiers::ALT), Code::Space)
    );
}

#[test]
fn the_spellings_that_a_system_decides_are_combinations() {
    for text in ["CmdOrCtrl+J", "CommandOrControl+J", "CmdOrControl+J", "commandorctrl+j"] {
        assert!(id(text) == id("Ctrl+J") || id(text) == id("Super+J"));
    }
    assert!(error("CmdOrCtrl").contains("Couldn't recognize \"CmdOrCtrl\""));
}

#[test]
fn other_combinations_have_other_ids() {
    assert_ne!(id("Ctrl+Alt+Space"), id("Ctrl+Shift+Space"));
    assert_ne!(id("Ctrl+Alt+Space"), id("Ctrl+Alt+J"));
}

#[test]
fn a_value_that_is_no_combination_is_named() {
    let syntax = "expected a combination like \"Ctrl+Alt+Space\" \
                  (modifiers Ctrl/Alt/Shift/Super + a key, joined by +)";
    assert_eq!(
        error("notakey"),
        format!("parsing HOTKEY \"notakey\" — {syntax}: {}", outside_error("notakey"))
    );
    assert_eq!(
        error("Win+Space"),
        format!(
            "parsing HOTKEY \"Win+Space\" — {syntax}: Couldn't recognize \"Win\" as a valid key \
             for hotkey, if you feel like it should be, please report this to \
             https://github.com/tauri-apps/muda"
        )
    );
    assert_eq!(
        error("Ctrl++Space"),
        format!("parsing HOTKEY \"Ctrl++Space\" — {syntax}: {}", outside_error("Ctrl++Space"))
    );
    assert_eq!(
        error("Ctrl+A+B"),
        format!("parsing HOTKEY \"Ctrl+A+B\" — {syntax}: {}", outside_error("Ctrl+A+B"))
    );
    assert!(error("Ctrl+Alt").contains("Invalid hotkey format: \"Ctrl+Alt\""));
    assert!(error("Meta+Space").contains("Couldn't recognize \"Meta\""));
}

#[test]
fn what_the_parse_gave_decides() {
    let key = HotKey::new(None, Code::F5);
    let ok = match resolve_hotkey("anything", Ok((key, 5))) {
        Ok(h) => h,
        Err(m) => panic!("{m}"),
    };
    assert_eq!((ok.text.as_str(), ok.key, ok.id), ("anything", key, 5));
    let failed = resolve_hotkey("x", Err(HotkeyError::EmptyToken("y".to_string())));
    assert!(matches!(failed, Err(m) if m.starts_with("parsing HOTKEY \"x\"")));
}

#[test]
fn a_refused_registration_names_the_hotkey_and_the_way_out() {
    let hotkey = Hotkey {
        text: "Ctrl+Alt+Space".to_string(),
        key: HotKey::new(None, Code::Space),
        id: 1,
    };
    assert_eq!(
        registration_error(&hotkey, "HotKey already registered"),
        "registering the global hotkey \"Ctrl+Alt+Space\" — it may already be in use by another \
         app (e.g. a Windows IME layout switch or PowerToys); set HOTKEY in your .env to a free \
         combination: HotKey already registered"
    );
}
