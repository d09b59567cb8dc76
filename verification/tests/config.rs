use rump::audio::{
    after_read, before_read, capture_text, encoder_setup, encoding_text, pw_record_args, read_size,
    AudioConfig, AudioLevels, CaptureStep, EncoderSetup, ReadEvent, SetupError,
};
use rump::config::{Codec, Config, LoadOutcome};
use rump::samples::FloatBits;

#[test]
fn test_defaults() {
    let c = Config::default();
    assert_eq!(c.sample_rate, 44100);
    assert_eq!(c.channels, 2);
    assert!((f32::from_bits(c.vorbis_quality.0) - 0.4).abs() < 0.01);
    assert_eq!(c.ptt_key, "Alt+Space");
    assert!((f32::from_bits(c.duck_level.0) - 0.2).abs() < 0.01);
}

#[test]
fn defaults_in_full() {
    let c = Config::default();
    assert_eq!((c.host.as_str(), c.port, c.mount.as_str()), ("localhost", 8001, "/angelo"));
    assert!(c.password.is_empty() && c.input_device.is_empty() && c.mic_device.is_empty());
    assert_eq!(c.vorbis_quality, FloatBits(0.4f32.to_bits()));
    assert_eq!(c.duck_threshold, FloatBits(0.02f32.to_bits()));
    assert_eq!(c.duck_level, FloatBits(0.2f32.to_bits()));
    assert_eq!((c.duck_attack_ms, c.duck_release_ms, c.duck_hold_ms), (100, 800, 500));
    assert_eq!((c.codec, c.opus_bitrate_kbps), (Codec::Vorbis, 128));
}

#[test]
fn settings_that_cannot_be_read_are_replaced() {
    let (c, message) = Config::load(LoadOutcome::Failed("no access".to_string()));
    assert_eq!(c.host, "localhost");
    assert_eq!(message.unwrap(), "Failed to load config: no access, using defaults");
}

#[test]
fn settings_that_are_missing_are_replaced_silently() {
    let (c, message) = Config::load(LoadOutcome::Missing);
    assert_eq!(c.port, 8001);
    assert!(message.is_none());
}

#[test]
fn settings_that_were_read_are_used() {
    let mut saved = Config::default();
    saved.host = "radio.example".to_string();
    let (c, message) = Config::load(LoadOutcome::Loaded(saved));
    assert_eq!(c.host, "radio.example");
    assert!(message.is_none());
}

#[test]
fn parts_of_the_settings() {
    let mut c = Config::default();
    c.password = "hackme".to_string();
    c.codec = Codec::Opus;
    let audio = c.audio_config();
    assert_eq!((audio.codec, audio.sample_rate, audio.channels), (Codec::Opus, 44100, 2));
    assert_eq!((audio.vorbis_quality, audio.opus_bitrate_kbps), (c.vorbis_quality, 128));
    let duck = c.duck_config();
    assert_eq!((duck.threshold, duck.duck_level), (c.duck_threshold, c.duck_level));
    assert_eq!((duck.attack_ms, duck.release_ms, duck.hold_ms), (100, 800, 500));
    let server = c.icecast_config();
    assert_eq!((server.host.as_str(), server.port), ("localhost", 8001));
    assert_eq!((server.mount.as_str(), server.password.as_str()), ("/angelo", "hackme"));
}

fn audio(codec: Codec) -> AudioConfig {
    AudioConfig {
        codec,
        sample_rate: 48000,
        channels: 2,
        vorbis_quality: FloatBits(0.4f32.to_bits()),
        opus_bitrate_kbps: 96,
    }
}

#[test]
fn recorder_is_asked_for_raw_samples() {
    assert_eq!(
        pw_record_args(42, 48000, 2),
        vec![
            "--raw", "--format", "f32", "--rate", "48000", "--channels", "2", "--latency", "20ms",
            "--target", "42", "-",
        ]
    );
}

#[test]
fn captures_are_announced() {
    assert_eq!(capture_text(false, 42), "Music capture started (target: 42)");
    assert_eq!(capture_text(true, 0), "Mic capture started (target: 0)");
}

#[test]
fn capture_reads_until_it_is_told_to_stop() {
    assert_eq!(read_size(2), 4096);
    assert_eq!(read_size(0), 0);
    assert_eq!(before_read(false), CaptureStep::Read);
    assert_eq!(before_read(true), CaptureStep::End);
}

#[test]
fn capture_hands_samples_on_while_streaming() {
    assert_eq!(
        after_read(ReadEvent::Bytes(8), true),
        CaptureStep::Use { bytes: 8, send: true }
    );
    assert_eq!(
        after_read(ReadEvent::Bytes(8), false),
        CaptureStep::Use { bytes: 8, send: false }
    );
    assert_eq!(after_read(ReadEvent::Bytes(0), true), CaptureStep::End);
    assert_eq!(after_read(ReadEvent::Interrupted, true), CaptureStep::Read);
    assert_eq!(after_read(ReadEvent::Failed, true), CaptureStep::Fail);
}

#[test]
fn levels_begin_with_silence() {
    let levels = AudioLevels::default();
    assert_eq!((f32::from_bits(levels.left.0), f32::from_bits(levels.right.0)), (0.0, 0.0));
}

#[test]
fn encoder_of_opus() {
    let mut config = audio(Codec::Opus);
    assert_eq!(
        encoder_setup(&config),
        Ok(EncoderSetup::Opus { sample_rate: 48000, mono: false, bitrate: 96000 })
    );
    config.channels = 1;
    config.opus_bitrate_kbps = 4_000_000;
    assert_eq!(
        encoder_setup(&config),
        Ok(EncoderSetup::Opus { sample_rate: 48000, mono: true, bitrate: -294967296 })
    );
}

#[test]
fn encoder_of_vorbis() {
    let mut config = audio(Codec::Vorbis);
    config.channels = 258;
    assert_eq!(
        encoder_setup(&config),
        Ok(EncoderSetup::Vorbis { sample_rate: 48000, channels: 2, quality: config.vorbis_quality })
    );
    config.channels = 256;
    assert_eq!(encoder_setup(&config), Err(SetupError::InvalidChannelCount));
    config.sample_rate = 0;
    assert_eq!(encoder_setup(&config), Err(SetupError::InvalidSampleRate));
    assert_eq!(SetupError::InvalidSampleRate.message(), "Invalid sample rate");
    assert_eq!(SetupError::InvalidChannelCount.message(), "Invalid channel count");
}

#[test]
fn encoders_are_announced() {
    assert_eq!(
        encoding_text(&audio(Codec::Opus), "0.4"),
        "Encoding: OGG Opus, 48000Hz, 2ch, 96kbps"
    );
    assert_eq!(
        encoding_text(&audio(Codec::Vorbis), "0.4"),
        "Encoding: OGG Vorbis, 48000Hz, 2ch, quality 0.4"
    );
}
