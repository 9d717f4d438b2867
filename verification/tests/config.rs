//! Settings and their sources.

use std::str::FromStr;
use xiuxiu::config::{
    env_from_rows, env_map, parse_env_file, resolve, Backend, ConfigError, EnvMap, RawConfig,
    Secret, DEFAULT_HOTKEY,
};

fn map(pairs: &[(&str, &str)]) -> EnvMap {
    let mut m = EnvMap::new();
    for (k, v) in pairs {
        m.insert(k.to_string(), v.to_string());
    }
    m
}

fn empty() -> EnvMap {
    EnvMap::new()
}

fn get<'a>(map: &'a EnvMap, key: &str) -> Option<&'a str> {
    map.get(key).map(|v| v.as_str())
}

#[test]
fn reads_all_keys_from_a_single_source() {
    let exedir = map(&[
        ("BACKEND", "groq"),
        ("GROQ_API_KEY", "gsk_test"),
        ("WHISPER_MODEL_PATH", "/models/ggml-base.en.bin"),
    ]);
    let cfg = resolve(&empty(), &empty(), &exedir).unwrap();
    assert_eq!(cfg.backend, Backend::Groq);
    assert_eq!(cfg.groq_api_key.as_ref().unwrap().expose(), "gsk_test");
    assert_eq!(
        cfg.whisper_model_path.as_deref(),
        Some("/models/ggml-base.en.bin")
    );
}

#[test]
fn env_overrides_lower_sources() {
    let env = map(&[("GROQ_API_KEY", "from_env")]);
    let exedir = map(&[("BACKEND", "groq"), ("GROQ_API_KEY", "from_file")]);
    let cfg = resolve(&env, &empty(), &exedir).unwrap();
    assert_eq!(cfg.groq_api_key.unwrap().expose(), "from_env");
}

#[test]
fn appdata_wins_over_exedir_but_env_wins_over_both() {
    let env = map(&[("BACKEND", "local")]);
    let appdata = map(&[("BACKEND", "groq"), ("GROQ_API_KEY", "appdata_key")]);
    let exedir = map(&[("GROQ_API_KEY", "exedir_key")]);
    let cfg = resolve(&env, &appdata, &exedir).unwrap();
    assert_eq!(cfg.backend, Backend::Local);
    assert_eq!(cfg.groq_api_key.unwrap().expose(), "appdata_key");
}

#[test]
fn groq_without_key_fails_validation() {
    let cfg = resolve(&empty(), &empty(), &map(&[("BACKEND", "groq")])).unwrap();
    assert!(matches!(cfg.validate(false), Err(ConfigError::MissingGroqKey)));
    assert!(matches!(cfg.validate(true), Err(ConfigError::MissingGroqKey)));
}

#[test]
fn local_with_nonexistent_model_fails_validation() {
    let exedir = map(&[
        ("BACKEND", "local"),
        ("WHISPER_MODEL_PATH", "/definitely/not/here.bin"),
    ]);
    let cfg = resolve(&empty(), &empty(), &exedir).unwrap();
    let model = cfg.whisper_model_path.as_deref().unwrap();
    let is_file = std::path::Path::new(model).is_file();
    assert!(matches!(
        cfg.validate(is_file),
        Err(ConfigError::ModelFileMissing(_))
    ));
    assert!(cfg.validate(true).is_ok());
}

#[test]
fn local_without_model_path_fails_validation() {
    let cfg = resolve(&empty(), &empty(), &map(&[("BACKEND", "local")])).unwrap();
    assert!(matches!(cfg.validate(false), Err(ConfigError::MissingModelPath)));
    assert!(matches!(cfg.validate(true), Err(ConfigError::MissingModelPath)));
}

#[test]
fn unset_backend_defaults_to_groq() {
    let cfg = resolve(&empty(), &empty(), &map(&[("GROQ_API_KEY", "k")])).unwrap();
    assert_eq!(cfg.backend, Backend::Groq);
}

#[test]
fn unknown_backend_value_errors() {
    let err = resolve(&empty(), &empty(), &map(&[("BACKEND", "azure")])).err().unwrap();
    assert!(matches!(err, ConfigError::UnknownBackend(v) if v == "azure"));
}

#[test]
fn empty_values_are_treated_as_absent() {
    let env = map(&[("GROQ_API_KEY", "   ")]);
    let cfg = resolve(&env, &empty(), &map(&[("BACKEND", "groq")])).unwrap();
    assert!(cfg.groq_api_key.is_none());
    assert!(matches!(cfg.validate(false), Err(ConfigError::MissingGroqKey)));
}

#[test]
fn secret_never_leaks_through_debug() {
    let cfg = resolve(&empty(), &empty(), &map(&[("GROQ_API_KEY", "supersecret")])).unwrap();
    let rendered = cfg.debug_text();
    assert!(!rendered.contains("supersecret"));
    assert!(rendered.contains("***"));
}

#[test]
fn hotkey_has_a_default_and_the_same_precedence() {
    let unset = resolve(&empty(), &empty(), &empty()).unwrap();
    assert_eq!(unset.hotkey, "Ctrl+Alt+Space");
    let set = resolve(&empty(), &empty(), &map(&[("HOTKEY", " Alt+Space ")])).unwrap();
    assert_eq!(set.hotkey, "Alt+Space");
    let env = map(&[("HOTKEY", "A")]);
    let appdata = map(&[("HOTKEY", "B")]);
    let exedir = map(&[("HOTKEY", "C")]);
    assert_eq!(resolve(&env, &appdata, &exedir).unwrap().hotkey, "A");
    assert_eq!(resolve(&empty(), &appdata, &exedir).unwrap().hotkey, "B");
    let blank = resolve(&empty(), &empty(), &map(&[("HOTKEY", "  ")])).unwrap();
    assert_eq!(blank.hotkey, DEFAULT_HOTKEY);
}

#[test]
fn a_blank_value_counts_as_absent() {
    let env = map(&[("GROQ_API_KEY", "   ")]);
    let appdata = map(&[("GROQ_API_KEY", "k")]);
    let cfg = resolve(&env, &appdata, &empty()).unwrap();
    assert_eq!(cfg.groq_api_key.unwrap().expose(), "k");
    let env = map(&[("BACKEND", " "), ("HOTKEY", "")]);
    let appdata = map(&[("BACKEND", "\t"), ("HOTKEY", "B")]);
    let exedir = map(&[("BACKEND", "local"), ("HOTKEY", "C")]);
    let cfg = resolve(&env, &appdata, &exedir).unwrap();
    assert_eq!(cfg.backend, Backend::Local);
    assert_eq!(cfg.hotkey, "B");
}

#[test]
fn backend_names_in_any_case() {
    assert_eq!(Backend::from_str(" LOCAL\t").unwrap(), Backend::Local);
    assert_eq!("Groq".parse::<Backend>().unwrap(), Backend::Groq);
    assert_eq!(Backend::from_str(" GrOq\u{3000}").unwrap(), Backend::Groq);
    assert!(matches!(
        Backend::from_str("  AZURE "),
        Err(ConfigError::UnknownBackend(v)) if v == "azure"
    ));
    assert_eq!(Backend::Local.name(), "Local");
}

#[test]
fn config_errors_in_words() {
    assert_eq!(
        ConfigError::UnknownBackend("x".to_string()).message(),
        "unknown BACKEND value 'x' (expected 'local' or 'groq')"
    );
    assert_eq!(
        ConfigError::MissingGroqKey.message(),
        "BACKEND=groq requires GROQ_API_KEY to be set"
    );
    assert_eq!(
        ConfigError::MissingModelPath.message(),
        "BACKEND=local requires WHISPER_MODEL_PATH to be set"
    );
    assert_eq!(
        ConfigError::ModelFileMissing("/m".to_string()).message(),
        "WHISPER_MODEL_PATH does not point to an existing file: /m"
    );
}

#[test]
fn debug_text_masks_the_key_and_quotes_the_rest() {
    let cfg = RawConfig {
        backend: Backend::Local,
        groq_api_key: Some(Secret::new("k".to_string())),
        whisper_model_path: Some("C:\\m \"x\".bin".to_string()),
        hotkey: "A".to_string(),
    };
    assert_eq!(
        cfg.debug_text(),
        "RawConfig { backend: Local, groq_api_key: Some(Secret(***)), \
         whisper_model_path: Some(\"C:\\\\m \\\"x\\\".bin\"), hotkey: \"A\" }"
    );
    let bare = RawConfig {
        backend: Backend::Groq,
        groq_api_key: None,
        whisper_model_path: None,
        hotkey: "A".to_string(),
    };
    assert_eq!(
        bare.clone().debug_text(),
        "RawConfig { backend: Groq, groq_api_key: None, whisper_model_path: None, hotkey: \"A\" }"
    );
}

#[test]
fn a_secret_shows_only_when_exposed() {
    let secret = Secret::new("gsk_1".to_string());
    assert_eq!(secret.debug_text(), "Secret(***)");
    assert_eq!(secret.display_text(), "***");
    assert_eq!(secret.clone().expose(), "gsk_1");
}

#[test]
fn a_later_entry_hides_an_earlier_one() {
    let mut m = map(&[("A", "1"), ("B", "2")]);
    assert!(!m.is_empty());
    m.insert("A".to_string(), "3".to_string());
    assert_eq!(get(&m, "A"), Some("3"));
    assert_eq!(get(&m, "B"), Some("2"));
    assert_eq!(get(&m, "C"), None);
    assert!(empty().is_empty());
}

#[test]
fn the_process_environment_gives_the_known_settings() {
    let m = env_map(Some("groq".to_string()), None, Some("/m".to_string()), Some("J".to_string()));
    assert_eq!(get(&m, "BACKEND"), Some("groq"));
    assert_eq!(get(&m, "GROQ_API_KEY"), None);
    assert_eq!(get(&m, "WHISPER_MODEL_PATH"), Some("/m"));
    assert_eq!(get(&m, "HOTKEY"), Some("J"));
    assert!(env_map(None, None, None, None).is_empty());
}

#[test]
fn an_env_file_resolves_to_settings() {
    let exedir = parse_env_file(b"BACKEND=groq\nGROQ_API_KEY=gsk_integration\n");
    let cfg = resolve(&empty(), &empty(), &exedir).unwrap();
    assert_eq!(cfg.backend, Backend::Groq);
    assert_eq!(cfg.groq_api_key.unwrap().expose(), "gsk_integration");
}

#[test]
fn an_empty_env_file_yields_an_empty_map() {
    assert!(parse_env_file(b"").is_empty());
    assert!(parse_env_file(b"# only a comment\n\n").is_empty());
}

#[test]
fn env_file_syntax() {
    let m = parse_env_file(
        b"# settings\nexport BACKEND = 'local'\nHOTKEY=\"Ctrl+Alt+J\" # mine\n\
          not an assignment\nBACKEND=groq\nWHISPER_MODEL_PATH='C:\\m.bin'\n",
    );
    assert_eq!(get(&m, "BACKEND"), Some("groq"));
    assert_eq!(get(&m, "HOTKEY"), Some("Ctrl+Alt+J"));
    assert_eq!(get(&m, "WHISPER_MODEL_PATH"), Some("C:\\m.bin"));
    assert_eq!(get(&m, "not"), None);
}

#[test]
fn a_dollar_sign_changes_no_name_and_no_other_row() {
    let m = parse_env_file(
        b"# costs 5$\nBACKEND=local\nGROQ_API_KEY='a$b'\nHOTKEY=$XIUXIU_UNSET_NAME\nBAD=${\n",
    );
    assert_eq!(get(&m, "BACKEND"), Some("local"));
    assert_eq!(get(&m, "GROQ_API_KEY"), Some("a$b"));
    assert!(get(&m, "HOTKEY").is_some());
    assert_eq!(get(&m, "BAD"), None);
}

#[test]
fn rows_that_are_no_assignment_are_passed_over() {
    let row = |k: &str, v: &str| Some((k.to_string(), v.to_string()));
    let m = env_from_rows(&vec![row("A", "1"), None, row("A", "2"), row("B", "")]);
    assert_eq!(get(&m, "A"), Some("2"));
    assert_eq!(get(&m, "B"), Some(""));
    assert!(env_from_rows(&vec![None, None]).is_empty());
}
