//! The backends and what they make of a clip.

use std::io::Cursor;
use xiuxiu::config::{Backend, RawConfig, Secret};
use xiuxiu::transcription::groq::{
    check_upload_size, classify_error, encode_wav_16k_mono, interpret_reply, is_success,
    map_reqwest_error, prepare_upload, retry_after, transcript, Reply, MAX_UPLOAD_BYTES,
};
use xiuxiu::transcription::local;
use xiuxiu::transcription::local::concat_segments;
use xiuxiu::transcription::wav::{write_wav, WavFormat};
use xiuxiu::transcription::{
    resolve_initial, resolve_switch, ActiveBackend, Backends, FatalError, SwitchOutcome,
    TranscribeError,
};

fn pcm(samples: &[f32]) -> Vec<i16> {
    samples.iter().map(|s| (s.clamp(-1.0, 1.0) * i16::MAX as f32) as i16).collect()
}

/// The message of an error envelope, where the body is one.
fn envelope(body: &str) -> Option<String> {
    let value: serde_json::Value = serde_json::from_str(body).ok()?;
    Some(value.get("error")?.get("message")?.as_str()?.to_string())
}

fn classify(code: u16, retry_after: Option<u64>, body: &str) -> TranscribeError {
    classify_error(code, retry_after, envelope(body), body.to_string())
}

#[test]
fn successful_body_deserializes_to_text() {
    let parsed: serde_json::Value = serde_json::from_str(r#"{"text":"hello world"}"#).unwrap();
    let text = parsed["text"].as_str().unwrap().to_string();
    assert_eq!(transcript(Ok(text)).unwrap(), "hello world");
}

#[test]
fn wav_encoding_produces_valid_16k_mono_header() {
    let samples = vec![0.0f32, 0.5, -0.5, 1.0, -1.0];
    let bytes = encode_wav_16k_mono(&pcm(&samples)).unwrap();
    let reader = hound::WavReader::new(Cursor::new(bytes)).unwrap();
    let spec = reader.spec();
    assert_eq!(spec.channels, 1);
    assert_eq!(spec.sample_rate, 16_000);
    assert_eq!(spec.bits_per_sample, 16);
    assert_eq!(reader.len(), samples.len() as u32);
}

#[test]
fn five_samples_make_a_file_of_54_bytes() {
    let samples = pcm(&[0.0f32, 0.5, -0.5, 1.0, -1.0]);
    let bytes = encode_wav_16k_mono(&samples).unwrap();
    assert_eq!(bytes.len(), 54);
    let mut reader = hound::WavReader::new(Cursor::new(bytes)).unwrap();
    let back: Vec<i16> = reader.samples::<i16>().map(|s| s.unwrap()).collect();
    assert_eq!(back, [0, 16383, -16383, 32767, -32767]);
}

#[test]
fn auth_status_maps_to_auth_error() {
    let err = classify(401, None, r#"{"error":{"message":"Invalid API Key"}}"#);
    assert!(matches!(err, TranscribeError::Auth(m) if m == "Invalid API Key"));
}

#[test]
fn rate_limit_carries_retry_after() {
    let err = classify(429, Some(7), "{}");
    assert!(matches!(
        err,
        TranscribeError::RateLimited {
            retry_after: Some(7),
            ..
        }
    ));
}

#[test]
fn server_error_is_transient() {
    let err = classify(503, None, "upstream down");
    assert!(matches!(err, TranscribeError::Server(_)));
}

#[test]
fn unparseable_error_body_falls_back_to_raw() {
    let err = classify(400, None, "not json");
    assert!(matches!(err, TranscribeError::Http(400, m) if m == "not json"));
}

#[test]
fn status_codes_at_the_edges() {
    assert!(matches!(classify(403, None, "x"), TranscribeError::Auth(_)));
    assert!(matches!(classify(413, None, "x"), TranscribeError::TooLarge(0)));
    assert!(matches!(classify(499, None, "x"), TranscribeError::Http(499, _)));
    assert!(matches!(classify(500, None, "x"), TranscribeError::Server(_)));
    assert!(matches!(classify(599, Some(1), "x"), TranscribeError::Server(_)));
    assert!(matches!(classify(600, None, "x"), TranscribeError::Http(600, _)));
    assert!(!is_success(199) && is_success(200) && is_success(299) && !is_success(300));
}

#[test]
fn concat_joins_and_trims_segments() {
    let segs = vec![
        " Hello".to_string(),
        " there,".to_string(),
        " world. ".to_string(),
    ];
    assert_eq!(concat_segments(&segs), "Hello there, world.");
}

#[test]
fn concat_handles_empty() {
    assert_eq!(concat_segments(&[]), "");
}

#[test]
fn groq_selected_with_key_is_active() {
    let (active, notice) = resolve_initial(Backend::Groq, true, false).unwrap();
    assert_eq!(active, Backend::Groq);
    assert!(notice.is_none());
}

#[test]
fn local_selected_with_model_is_active() {
    let (active, notice) = resolve_initial(Backend::Local, false, true).unwrap();
    assert_eq!(active, Backend::Local);
    assert!(notice.is_none());
}

#[test]
fn local_unloadable_with_key_falls_back_to_groq() {
    let (active, notice) = resolve_initial(Backend::Local, true, false).unwrap();
    assert_eq!(active, Backend::Groq);
    assert!(notice.is_some());
}

#[test]
fn local_unloadable_without_key_is_fatal() {
    let err = resolve_initial(Backend::Local, false, false).unwrap_err();
    assert!(matches!(
        err,
        FatalError::LocalSelectedUnavailableNoFallback
    ));
}

#[test]
fn groq_selected_without_key_is_fatal() {
    let err = resolve_initial(Backend::Groq, false, false).unwrap_err();
    assert!(matches!(err, FatalError::GroqSelectedNoKey));
}

#[test]
fn switch_to_available_backend_succeeds() {
    assert_eq!(
        resolve_switch(Backend::Groq, Backend::Local, true, true),
        SwitchOutcome::Switched
    );
}

#[test]
fn switch_to_unloaded_local_is_rejected() {
    assert_eq!(
        resolve_switch(Backend::Groq, Backend::Local, true, false),
        SwitchOutcome::Rejected
    );
}

#[test]
fn switch_to_current_backend_is_unchanged() {
    assert_eq!(
        resolve_switch(Backend::Groq, Backend::Groq, true, false),
        SwitchOutcome::Unchanged
    );
}

fn raw(backend: Backend, key: Option<&str>, model: Option<&str>) -> RawConfig {
    RawConfig {
        backend,
        groq_api_key: key.map(|k| Secret::new(k.to_string())),
        whisper_model_path: model.map(|m| m.to_string()),
        hotkey: "A".to_string(),
    }
}

fn initialize(
    raw: &RawConfig,
) -> Result<(Backends<String, String>, Option<String>), FatalError> {
    Backends::initialize(
        raw,
        |key: Secret| format!("client {}", key.expose()),
        |path: &str| {
            if path == "bad" {
                Err(TranscribeError::Local("no".to_string()))
            } else {
                Ok(format!("model {path}"))
            }
        },
    )
}

#[test]
fn backends_are_built_from_the_settings() {
    let (mut b, notice) = initialize(&raw(Backend::Local, Some("k"), Some("m"))).ok().unwrap();
    assert_eq!(b.active_kind(), Backend::Local);
    assert_eq!(notice, None);
    assert!(matches!(b.current(), ActiveBackend::Local(l) if l == "model m"));
    assert_eq!(b.switch(Backend::Groq), SwitchOutcome::Switched);
    assert!(matches!(b.current(), ActiveBackend::Groq(g) if g == "client k"));
    assert_eq!(b.current().kind(), Backend::Groq);
    assert_eq!(b.switch(Backend::Groq), SwitchOutcome::Unchanged);
    assert_eq!(b.switch(Backend::Local), SwitchOutcome::Switched);
    assert_eq!(b.current().kind(), Backend::Local);
}

#[test]
fn a_model_that_does_not_load_falls_back() {
    let (mut b, notice) = initialize(&raw(Backend::Local, Some("k"), Some("bad"))).ok().unwrap();
    assert_eq!(b.active_kind(), Backend::Groq);
    assert_eq!(
        notice,
        Some("Local model unavailable; falling back to Groq.".to_string())
    );
    assert_eq!(b.switch(Backend::Local), SwitchOutcome::Rejected);
    assert_eq!(b.active_kind(), Backend::Groq);
    let err = initialize(&raw(Backend::Local, None, Some("bad"))).err().unwrap();
    assert_eq!(
        err.message(),
        "BACKEND=local but the model could not be loaded and no GROQ_API_KEY is set to fall back to"
    );
    let err = initialize(&raw(Backend::Groq, None, Some("m"))).err().unwrap();
    assert_eq!(err.message(), "BACKEND=groq but no GROQ_API_KEY is set");
}

#[test]
fn a_wav_file_byte_for_byte() {
    let bytes = encode_wav_16k_mono(&[1, -2, i16::MIN]).unwrap();
    let mut expected = b"RIFF".to_vec();
    expected.extend(42u32.to_le_bytes());
    expected.extend(b"WAVEfmt ");
    expected.extend(16u32.to_le_bytes());
    expected.extend(1u16.to_le_bytes());
    expected.extend(1u16.to_le_bytes());
    expected.extend(16_000u32.to_le_bytes());
    expected.extend(32_000u32.to_le_bytes());
    expected.extend(2u16.to_le_bytes());
    expected.extend(16u16.to_le_bytes());
    expected.extend(b"data");
    expected.extend(6u32.to_le_bytes());
    expected.extend([1, 0, 0xfe, 0xff, 0x00, 0x80]);
    assert_eq!(bytes, expected);
    assert_eq!(encode_wav_16k_mono(&[]).unwrap().len(), 44);
}

#[test]
fn a_wav_file_reads_back() {
    let samples: Vec<i16> = (-50..50).map(|n| n * 331).collect();
    let format = WavFormat { channels: 2, sample_rate: 44_100, bits_per_sample: 16 };
    let bytes = write_wav(format, &samples).unwrap();
    assert_eq!(bytes.len(), 44 + 2 * samples.len());
    let mut reader = hound::WavReader::new(Cursor::new(bytes)).unwrap();
    assert_eq!(reader.spec().channels, 2);
    assert_eq!(reader.spec().sample_rate, 44_100);
    let back: Vec<i16> = reader.samples::<i16>().map(|s| s.unwrap()).collect();
    assert_eq!(back, samples);
    assert!(matches!(
        write_wav(format, &[1, 2, 3]),
        Err(TranscribeError::Encode(m)) if !m.is_empty()
    ));
}

#[test]
fn an_upload_has_the_file_and_the_fields() {
    let key = Secret::new("gsk".to_string());
    let request = prepare_upload(&key, &[5, 6]).unwrap_or_else(|e| panic!("{}", e.message()));
    assert_eq!(
        request.endpoint,
        "https://api.groq.com/openai/v1/audio/transcriptions"
    );
    assert_eq!(request.bearer.expose(), "gsk");
    assert_eq!(
        (request.file_part, request.file_name, request.file_type),
        ("file", "audio.wav", "audio/wav")
    );
    assert_eq!(request.file, encode_wav_16k_mono(&[5, 6]).unwrap());
    assert_eq!(
        request.fields,
        [
            ("model", "whisper-large-v3-turbo"),
            ("response_format", "json"),
            ("language", "en")
        ]
    );
}

#[test]
fn a_file_beyond_the_limit_is_not_uploaded() {
    let key = Secret::new("gsk".to_string());
    assert!(prepare_upload(&key, &vec![0; 13_107_178]).is_ok());
    assert!(matches!(
        prepare_upload(&key, &vec![0; 13_107_179]),
        Err(TranscribeError::TooLarge(26_214_402))
    ));
    assert!(matches!(
        prepare_upload(&key, &vec![0; 13_107_200]),
        Err(TranscribeError::TooLarge(26_214_444))
    ));
    assert_eq!(check_upload_size(vec![0; MAX_UPLOAD_BYTES]).unwrap().len(), 26_214_400);
    assert!(matches!(
        check_upload_size(vec![0; MAX_UPLOAD_BYTES + 1]),
        Err(TranscribeError::TooLarge(26_214_401))
    ));
}

#[test]
fn replies() {
    assert_eq!(
        interpret_reply(200, Reply::Success(Ok("  hello \n".to_string()))).unwrap(),
        "hello"
    );
    assert!(matches!(
        interpret_reply(204, Reply::Success(Err("eof".to_string()))),
        Err(TranscribeError::Decode(m)) if m == "eof"
    ));
    let limited = Reply::Failure {
        retry_after: Some("12".to_string()),
        envelope: Some("slow down".to_string()),
        body: "{}".to_string(),
    };
    assert!(matches!(
        interpret_reply(429, limited),
        Err(TranscribeError::RateLimited { retry_after: Some(12), message }) if message == "slow down"
    ));
    let dated = Reply::Failure {
        retry_after: Some("Wed, 21 Oct 2015 07:28:00 GMT".to_string()),
        envelope: None,
        body: "busy".to_string(),
    };
    assert!(matches!(
        interpret_reply(429, dated),
        Err(TranscribeError::RateLimited { retry_after: None, message }) if message == "busy"
    ));
    assert_eq!(retry_after(Some("7")), Some(7));
    assert_eq!(retry_after(Some("soon")), None);
    assert_eq!(retry_after(None), None);
}

#[test]
fn network_failures() {
    assert!(matches!(
        map_reqwest_error(true, "x".to_string()),
        TranscribeError::Timeout
    ));
    assert!(matches!(
        map_reqwest_error(false, "x".to_string()),
        TranscribeError::Network(m) if m == "x"
    ));
}

#[test]
fn transcription_errors_in_words() {
    let x = || "x".to_string();
    let cases = [
        (TranscribeError::Network(x()), "network error: x"),
        (TranscribeError::Timeout, "request timed out"),
        (
            TranscribeError::Auth(x()),
            "authentication failed — check GROQ_API_KEY: x",
        ),
        (
            TranscribeError::RateLimited { retry_after: Some(7), message: x() },
            "rate limited — retry after 7s",
        ),
        (
            TranscribeError::RateLimited { retry_after: None, message: x() },
            "rate limited",
        ),
        (TranscribeError::TooLarge(5), "audio too large (5 bytes)"),
        (TranscribeError::Server(x()), "server error: x"),
        (TranscribeError::Http(404, x()), "unexpected response (404): x"),
        (TranscribeError::Decode(x()), "failed to decode response: x"),
        (TranscribeError::Encode(x()), "failed to encode audio: x"),
        (TranscribeError::Local(x()), "local model error: x"),
    ];
    for (error, message) in cases {
        assert_eq!(error.message(), message);
    }
}

#[test]
fn a_local_run() {
    let seg = |s: &str| Ok(s.to_string());
    assert_eq!(
        local::transcript(Ok(()), &vec![seg(" one"), seg(" two ")]).unwrap(),
        "one two"
    );
    assert!(matches!(
        local::transcript(
            Ok(()),
            &vec![seg("one"), Err("first".to_string()), Err("second".to_string())]
        ),
        Err(TranscribeError::Local(m)) if m == "first"
    ));
    assert!(matches!(
        local::transcript(Err("run".to_string()), &vec![seg("one")]),
        Err(TranscribeError::Local(m)) if m == "run"
    ));
    assert_eq!(
        local::load_failed("x").message(),
        "local model error: failed to load model: x"
    );
    assert_eq!(
        local::path_not_utf8().message(),
        "local model error: model path is not valid UTF-8"
    );
}

#[test]
fn thread_counts() {
    assert_eq!(local::thread_count(None), 4);
    assert_eq!(local::thread_count(Some(1)), 1);
    assert_eq!(local::thread_count(Some(8)), 8);
    assert_eq!(local::thread_count(Some(64)), 8);
}
