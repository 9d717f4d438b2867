//! Capture and preprocessing.

use rubato::{FftFixedInOut, Resampler};
use xiuxiu::audio::capture::{
    device_config, finished_clip, probe_outcome, stream_kind, AudioCommand, AudioError,
    CaptureStep, DeviceFormat, OpenOutcome, Recorder, SessionBuffer, StreamKind,
};
use xiuxiu::audio::preprocess::{
    downmix_to_mono, join_outputs, needs_resampling, passes_gate, resample_blocks,
    resample_to_16k, RESAMPLE_CHUNK,
};

const SILENCE_RMS: f32 = 0.005;

fn i16_to_f32(sample: i16) -> f32 {
    sample as f32 / 32768.0
}

fn u16_to_f32(sample: u16) -> f32 {
    (sample as f32 / 32768.0) - 1.0
}

fn average(frame: &[f32]) -> f32 {
    frame.iter().sum::<f32>() / frame.len() as f32
}

fn loud(samples: &[f32]) -> bool {
    let rms = (samples.iter().map(|s| s * s).sum::<f32>() / samples.len() as f32).sqrt();
    rms >= SILENCE_RMS
}

fn gate(samples: &[f32], rate: u32, channels: u16) -> bool {
    passes_gate(samples, rate, channels, loud(samples))
}

fn resample(mono: &[f32], src_rate: u32) -> Vec<f32> {
    let outputs = if needs_resampling(mono.len(), src_rate) {
        match FftFixedInOut::<f32>::new(src_rate as usize, 16_000, RESAMPLE_CHUNK, 1) {
            Ok(mut resampler) => Some(
                resample_blocks(mono, resampler.input_frames_next(), 0.0)
                    .iter()
                    .map(|block| resampler.process(&[block], None).ok().map(|mut out| out.remove(0)))
                    .collect(),
            ),
            Err(_) => None,
        }
    } else {
        None
    };
    resample_to_16k(mono, src_rate, outputs.as_ref())
}

#[test]
fn session_buffer_accumulates_between_start_and_take() {
    let mut buf = SessionBuffer::default();
    buf.start();
    buf.push(&[0.1, 0.2]);
    buf.push(&[0.3]);
    let taken = buf.take();
    assert_eq!(taken, vec![0.1, 0.2, 0.3]);
    assert!(buf.take().is_empty());
}

#[test]
fn session_buffer_start_clears_previous_session() {
    let mut buf = SessionBuffer::default();
    buf.push(&[9.9]);
    buf.start();
    buf.push(&[0.5]);
    assert_eq!(buf.take(), vec![0.5]);
}

#[test]
fn session_buffer_converts_integer_samples() {
    let mut buf: SessionBuffer<f32> = SessionBuffer::default();
    buf.push_i16(&[i16::MAX, i16::MIN], i16_to_f32);
    let out = buf.take();
    assert!((out[0] - 0.999_97).abs() < 1e-3);
    assert!((out[1] + 1.0).abs() < 1e-6);
    buf.push_u16(&[0, 32768], u16_to_f32);
    assert_eq!(buf.take(), vec![-1.0, 0.0]);
}

#[test]
fn downmix_averages_stereo_to_half_length() {
    let stereo = [1.0, 3.0, 0.0, 0.0, -1.0, 1.0];
    let mono = downmix_to_mono(&stereo, 2, average);
    assert_eq!(mono, vec![2.0, 0.0, 0.0]);
}

#[test]
fn downmix_passes_mono_through_unchanged() {
    let mono = [0.1, -0.2, 0.3];
    assert_eq!(downmix_to_mono(&mono, 1, average), mono.to_vec());
}

#[test]
fn downmix_at_the_edges() {
    let samples = [1.0, 3.0, 5.0, 7.0, 9.0];
    assert_eq!(downmix_to_mono(&samples, 0, average), samples.to_vec());
    assert_eq!(downmix_to_mono(&samples, 2, average), vec![2.0, 6.0]);
    assert_eq!(downmix_to_mono(&samples, 6, average), Vec::<f32>::new());
}

#[test]
fn resample_48k_to_16k_yields_about_one_third() {
    let src_rate = 48_000;
    let n = src_rate;
    let sine: Vec<f32> = (0..n)
        .map(|i| (2.0 * std::f32::consts::PI * 440.0 * i as f32 / src_rate as f32).sin())
        .collect();
    let out = resample(&sine, src_rate as u32);
    let expected = n / 3;
    assert!(
        (out.len() as i64 - expected as i64).abs() <= RESAMPLE_CHUNK as i64,
        "got {} samples, expected ~{expected}",
        out.len()
    );
    let rms = (out.iter().map(|s| s * s).sum::<f32>() / out.len() as f32).sqrt();
    assert!(rms > 0.5 && rms < 0.8, "rms {rms}");
}

#[test]
fn resample_is_noop_at_16k() {
    let buf = vec![0.1, 0.2, 0.3];
    assert_eq!(resample(&buf, 16_000), buf);
}

#[test]
fn resampling_without_a_resampler_keeps_the_clip() {
    assert_eq!(resample_to_16k(&[1, 2, 3], 48_000, None), [1, 2, 3]);
    assert_eq!(resample_to_16k(&[1, 2, 3], 16_000, Some(&vec![Some(vec![9])])), [1, 2, 3]);
    assert_eq!(
        resample_to_16k(&[1, 2, 3], 48_000, Some(&vec![Some(vec![9]), None, Some(vec![8, 7])])),
        [9, 8, 7]
    );
    assert!(resample_to_16k::<i32>(&[], 48_000, Some(&vec![Some(vec![9])])).is_empty());
    assert!(!needs_resampling(0, 48_000));
    assert!(!needs_resampling(3, 16_000));
    assert!(needs_resampling(3, 44_100));
}

#[test]
fn blocks_are_full_and_hold_the_clip() {
    assert_eq!(
        resample_blocks(&[1, 2, 3, 4, 5], 2, 0),
        vec![vec![1, 2], vec![3, 4], vec![5, 0]]
    );
    assert_eq!(resample_blocks(&[1, 2], 2, 0), vec![vec![1, 2]]);
    assert!(resample_blocks::<i32>(&[], 2, 0).is_empty());
    assert_eq!(join_outputs(&vec![None, Some(vec![1]), Some(vec![2, 3])]), [1, 2, 3]);
}

#[test]
fn gate_rejects_short_clips() {
    let short = vec![0.5f32; 1600];
    assert!(!gate(&short, 16_000, 1));
}

#[test]
fn gate_rejects_silence_even_when_long() {
    let silent = vec![0.0f32; 16_000];
    assert!(!gate(&silent, 16_000, 1));
}

#[test]
fn gate_accepts_long_loud_clip() {
    let loud = vec![0.3f32; 16_000];
    assert!(gate(&loud, 16_000, 1));
}

#[test]
fn gate_accounts_for_channel_count() {
    let short_stereo = vec![0.5f32; 3200];
    assert!(!gate(&short_stereo, 16_000, 2));
}

#[test]
fn gate_rejects_empty() {
    assert!(!gate(&[], 16_000, 1));
}

#[test]
fn gate_at_the_edges() {
    assert!(passes_gate(&vec![0u8; 5_600], 16_000, 1, true));
    assert!(!passes_gate(&vec![0u8; 5_599], 16_000, 1, true));
    assert!(passes_gate(&vec![0u8; 11_200], 16_000, 2, true));
    assert!(!passes_gate(&vec![0u8; 11_199], 16_000, 2, true));
    assert!(!passes_gate(&vec![0u8; 5_600], 16_000, 1, false));
    assert!(!passes_gate(&vec![0u8; 5_600], 0, 1, true));
    assert!(!passes_gate(&vec![0u8; 5_600], 16_000, 0, true));
}

fn playing() -> OpenOutcome {
    OpenOutcome::Playing { sample_rate: 48_000, channels: 2 }
}

#[test]
fn the_microphone_is_open_from_start_to_stop() {
    let mut r = Recorder::new();
    assert!(!r.is_open());
    assert_eq!(r.on_command(AudioCommand::Stop), CaptureStep::Ignore);
    assert_eq!(r.on_command(AudioCommand::Start), CaptureStep::Open);
    assert_eq!(r.on_opened(playing()), None);
    assert!(r.is_open());
    assert_eq!(r.on_command(AudioCommand::Start), CaptureStep::Ignore);
    assert_eq!(
        r.on_command(AudioCommand::Stop),
        CaptureStep::Close { sample_rate: 48_000, channels: 2 }
    );
    assert!(!r.is_open());
    assert_eq!(r.on_command(AudioCommand::Shutdown), CaptureStep::Exit);
}

#[test]
fn a_stream_that_does_not_open_is_logged() {
    let mut r = Recorder::new();
    r.on_command(AudioCommand::Start);
    assert_eq!(
        r.on_opened(OpenOutcome::NotBuilt(AudioError::BuildStream("x".to_string()))),
        Some("failed to build audio stream: could not build input stream: x".to_string())
    );
    assert!(!r.is_open());
    assert_eq!(r.on_command(AudioCommand::Start), CaptureStep::Open);
    assert_eq!(
        r.on_opened(OpenOutcome::NotStarted("y".to_string())),
        Some("failed to start audio stream: y".to_string())
    );
    assert_eq!(r.on_command(AudioCommand::Stop), CaptureStep::Ignore);
}

#[test]
fn clips_and_devices() {
    let clip = finished_clip(Some(vec![1, 2]), 8_000, 1);
    assert_eq!((clip.samples, clip.sample_rate, clip.channels), (vec![1, 2], 8_000, 1));
    assert!(finished_clip::<i16>(None, 8_000, 1).samples.is_empty());
    assert_eq!(device_config(Some(Ok(5))).unwrap(), 5);
    assert!(matches!(device_config::<u8>(None), Err(AudioError::NoInputDevice)));
    assert!(matches!(
        device_config::<u8>(Some(Err("z".to_string()))),
        Err(AudioError::Config(m)) if m == "z"
    ));
    assert!(probe_outcome(Some(Ok(()))).is_ok());
    assert!(matches!(probe_outcome(None), Err(AudioError::NoInputDevice)));
    assert!(matches!(
        probe_outcome(Some(Err(AudioError::Config("c".to_string())))),
        Err(AudioError::Config(_))
    ));
}

#[test]
fn three_sample_formats_are_supported() {
    assert_eq!(stream_kind(DeviceFormat::Float32).unwrap(), StreamKind::Float32);
    assert_eq!(stream_kind(DeviceFormat::Signed16).unwrap(), StreamKind::Signed16);
    assert_eq!(stream_kind(DeviceFormat::Unsigned16).unwrap(), StreamKind::Unsigned16);
    assert_eq!(
        stream_kind(DeviceFormat::Other("I24".to_string())).unwrap_err().message(),
        "could not query input device config: unsupported sample format: I24"
    );
    assert_eq!(
        AudioError::NoInputDevice.message(),
        "no default input device (microphone) available"
    );
}
