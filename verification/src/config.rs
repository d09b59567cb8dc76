//! The settings of the client.
use vstd::prelude::*;
use crate::audio::AudioConfig;
use crate::duck::DuckConfig;
use crate::samples::FloatBits;
use crate::stream::IcecastConfig;

verus! {

/// How the music is encoded.
#[derive(Clone, Copy, PartialEq, Eq, Structural, Debug)]
pub enum Codec {
    Vorbis,
    Opus,
}

/// The settings of the client.
#[derive(Debug)]
pub struct Config {
    pub host: String,
    pub port: u16,
    pub mount: String,
    pub password: String,
    pub input_device: String,
    pub codec: Codec,
    pub sample_rate: u32,
    pub channels: u16,
    pub vorbis_quality: FloatBits,
    pub opus_bitrate_kbps: u32,
    // Microphone
    pub mic_device: String,
    pub ptt_key: String,
    // Ducking
    pub duck_threshold: FloatBits,
    pub duck_level: FloatBits,
    pub duck_attack_ms: u32,
    pub duck_release_ms: u32,
    pub duck_hold_ms: u32,
}

/// The contents of a [`Config`].
pub struct ConfigView {
    pub host: Seq<char>,
    pub port: u16,
    pub mount: Seq<char>,
    pub password: Seq<char>,
    pub input_device: Seq<char>,
    pub codec: Codec,
    pub sample_rate: u32,
    pub channels: u16,
    pub vorbis_quality: FloatBits,
    pub opus_bitrate_kbps: u32,
    pub mic_device: Seq<char>,
    pub ptt_key: Seq<char>,
    pub duck_threshold: FloatBits,
    pub duck_level: FloatBits,
    pub duck_attack_ms: u32,
    pub duck_release_ms: u32,
    pub duck_hold_ms: u32,
}

impl View for Config {
    type V = ConfigView;

    open spec fn view(&self) -> ConfigView {
        ConfigView {
            host: self.host@,
            port: self.port,
            mount: self.mount@,
            password: self.password@,
            input_device: self.input_device@,
            codec: self.codec,
            sample_rate: self.sample_rate,
            channels: self.channels,
            vorbis_quality: self.vorbis_quality,
            opus_bitrate_kbps: self.opus_bitrate_kbps,
            mic_device: self.mic_device@,
            ptt_key: self.ptt_key@,
            duck_threshold: self.duck_threshold,
            duck_level: self.duck_level,
            duck_attack_ms: self.duck_attack_ms,
            duck_release_ms: self.duck_release_ms,
            duck_hold_ms: self.duck_hold_ms,
        }
    }
}

/// The settings where none are saved. The numbers of single precision are 0.4, 0.02 and 0.2.
pub open spec fn default_config() -> ConfigView {
    ConfigView {
        host: "localhost"@,
        port: 8001,
        mount: "/angelo"@,
        password: Seq::empty(),
        input_device: Seq::empty(),
        codec: Codec::Vorbis,
        sample_rate: 44100,
        channels: 2,
        vorbis_quality: FloatBits(0x3ECC_CCCD),
        opus_bitrate_kbps: 128,
        mic_device: Seq::empty(),
        ptt_key: "Alt+Space"@,
        duck_threshold: FloatBits(0x3CA3_D70A),
        duck_level: FloatBits(0x3E4C_CCCD),
        duck_attack_ms: 100,
        duck_release_ms: 800,
        duck_hold_ms: 500,
    }
}

impl Default for Config {
    fn default() -> (r: Self)
        ensures
            r@ == default_config(),
    {
        Config {
            host: "localhost".to_string(),
            port: 8001,
            mount: "/angelo".to_string(),
            password: String::new(),
            input_device: String::new(),
            codec: Codec::Vorbis,
            sample_rate: 44100,
            channels: 2,
            vorbis_quality: FloatBits(0x3ECC_CCCD),
            opus_bitrate_kbps: 128,
            mic_device: String::new(),
            ptt_key: "Alt+Space".to_string(),
            duck_threshold: FloatBits(0x3CA3_D70A),
            duck_level: FloatBits(0x3E4C_CCCD),
            duck_attack_ms: 100,
            duck_release_ms: 800,
            duck_hold_ms: 500,
        }
    }
}

/// What came of reading the saved settings.
#[derive(Debug)]
pub enum LoadOutcome {
    /// There are none.
    Missing,
    /// They could not be read; the text says why.
    Failed(String),
    /// They were read.
    Loaded(Config),
}

impl Config {
    /// The settings to use, and a message where the saved ones could not be read.
    pub fn load(outcome: LoadOutcome) -> (r: (Config, Option<String>))
        ensures
            (match outcome {
                LoadOutcome::Missing => r.0@ == default_config() && r.1 is None,
                LoadOutcome::Failed(why) => r.0@ == default_config() && (r.1 matches Some(m) && m@
                    == "Failed to load config: "@ + why@ + ", using defaults"@),
                LoadOutcome::Loaded(config) => r.0 == config && r.1 is None,
            }),
    {
        match outcome {
            LoadOutcome::Missing => (Config::default(), None),
            LoadOutcome::Failed(why) => {
                let mut message = String::new();
                message.append("Failed to load config: ");
                message.append(why.as_str());
                message.append(", using defaults");
                assert(message@ =~= "Failed to load config: "@ + why@ + ", using defaults"@);
                (Config::default(), Some(message))
            },
            LoadOutcome::Loaded(config) => (config, None),
        }
    }

    /// The settings of the encoder.
    pub fn audio_config(&self) -> (r: AudioConfig)
        ensures
            r == (AudioConfig {
                codec: self.codec,
                sample_rate: self.sample_rate,
                channels: self.channels,
                vorbis_quality: self.vorbis_quality,
                opus_bitrate_kbps: self.opus_bitrate_kbps,
            }),
            r.codec == self@.codec,
            r.sample_rate == self@.sample_rate,
            r.channels == self@.channels,
            r.vorbis_quality == self@.vorbis_quality,
            r.opus_bitrate_kbps == self@.opus_bitrate_kbps,
    {
        AudioConfig {
            codec: self.codec,
            sample_rate: self.sample_rate,
            channels: self.channels,
            vorbis_quality: self.vorbis_quality,
            opus_bitrate_kbps: self.opus_bitrate_kbps,
        }
    }

    /// The settings of the ducking.
    pub fn duck_config(&self) -> (r: DuckConfig)
        ensures
            r == (DuckConfig {
                threshold: self.duck_threshold,
                duck_level: self.duck_level,
                attack_ms: self.duck_attack_ms,
                release_ms: self.duck_release_ms,
                hold_ms: self.duck_hold_ms,
            }),
            r.threshold == self@.duck_threshold,
            r.duck_level == self@.duck_level,
            r.attack_ms == self@.duck_attack_ms,
            r.release_ms == self@.duck_release_ms,
            r.hold_ms == self@.duck_hold_ms,
    {
        DuckConfig {
            threshold: self.duck_threshold,
            duck_level: self.duck_level,
            attack_ms: self.duck_attack_ms,
            release_ms: self.duck_release_ms,
            hold_ms: self.duck_hold_ms,
        }
    }

    /// Where the server is, and how to log in to it.
    pub fn icecast_config(&self) -> (r: IcecastConfig)
        ensures
            r.host@ == self.host@,
            r.port == self.port,
            r.mount@ == self.mount@,
            r.password@ == self.password@,
    {
        IcecastConfig {
            host: self.host.clone(),
            port: self.port,
            mount: self.mount.clone(),
            password: self.password.clone(),
        }
    }
}

/// The settings where none are saved are of a stream that the encoders take and that ducks: two
/// channels at 44100 hertz, with the ducking faster to begin than to end. No device and no password
/// is set, so that nothing is captured or streamed before there are.
pub proof fn defaults_ask_for_a_device()
    ensures
        ({
            let c = default_config();
            &&& c.password.len() == 0 && c.input_device.len() == 0 && c.mic_device.len() == 0
            &&& c.host.len() > 0 && c.mount.len() > 0 && c.mount[0] == '/'
            &&& c.port == 8001 && c.sample_rate == 44100 && c.channels == 2
            &&& c.codec == Codec::Vorbis && c.opus_bitrate_kbps == 128
            &&& c.duck_attack_ms == 100 && c.duck_hold_ms == 500 && c.duck_release_ms == 800
        }),
{
    reveal_strlit("localhost");
    reveal_strlit("/angelo");
}

} // verus!
