//! Capture and encoding: what is asked of the recorder and of the encoders.
use vstd::prelude::*;
use crate::config::Codec;
use crate::samples::FloatBits;
use crate::text::{decimal_text, push_decimal};
use crate::text::{all_digits, decimal, decimal_reads_back, digits_value};

verus! {

/// How the music is captured and encoded.
#[derive(Clone, Copy, PartialEq, Eq, Structural, Debug)]
pub struct AudioConfig {
    pub codec: Codec,
    pub sample_rate: u32,
    pub channels: u16,
    pub vorbis_quality: FloatBits,
    pub opus_bitrate_kbps: u32,
}

/// The levels of two channels.
#[derive(Clone, Copy, PartialEq, Eq, Structural, Debug)]
pub struct AudioLevels {
    pub left: FloatBits,
    pub right: FloatBits,
}

impl Default for AudioLevels {
    fn default() -> (r: Self)
        ensures
            r.left == FloatBits(0),
            r.right == FloatBits(0),
    {
        AudioLevels { left: FloatBits(0), right: FloatBits(0) }
    }
}

// Capture.

/// The texts of a list.
pub open spec fn text_views(texts: Seq<String>) -> Seq<Seq<char>> {
    texts.map_values(|t: String| t@)
}

/// The arguments with which the recorder is started.
pub open spec fn record_args(target_serial: u32, rate: u32, channels: u16) -> Seq<Seq<char>> {
    seq![
        "--raw"@,
        "--format"@,
        "f32"@,
        "--rate"@,
        decimal(rate as nat),
        "--channels"@,
        decimal(channels as nat),
        "--latency"@,
        "20ms"@,
        "--target"@,
        decimal(target_serial as nat),
        "-"@,
    ]
}

/// The arguments with which the recorder is started.
pub fn pw_record_args(target_serial: u32, rate: u32, channels: u16) -> (r: Vec<String>)
    ensures
        text_views(r@) == record_args(target_serial, rate, channels),
{
    let mut args: Vec<String> = Vec::new();
    args.push("--raw".to_string());
    args.push("--format".to_string());
    args.push("f32".to_string());
    args.push("--rate".to_string());
    args.push(decimal_text(rate as u64));
    args.push("--channels".to_string());
    args.push(decimal_text(channels as u64));
    args.push("--latency".to_string());
    args.push("20ms".to_string());
    args.push("--target".to_string());
    args.push(decimal_text(target_serial as u64));
    args.push("-".to_string());
    assert(text_views(args@) =~= record_args(target_serial, rate, channels));
    args
}

/// What the console says when the capture of the music or of the microphone starts.
pub fn capture_text(mic: bool, target_serial: u32) -> (r: String)
    ensures
        r@ == (if mic {
            "Mic capture started (target: "@
        } else {
            "Music capture started (target: "@
        }) + decimal(target_serial as nat) + ")"@,
{
    let head = if mic {
        "Mic capture started (target: "
    } else {
        "Music capture started (target: "
    };
    let mut out = String::new();
    out.append(head);
    push_decimal(&mut out, target_serial as u64);
    out.append(")");
    assert(out@ =~= head@ + decimal(target_serial as nat) + ")"@);
    out
}

/// The frames that one read of captured samples asks for.
pub const FRAMES_PER_CHUNK: usize = 512;

/// The bytes that one read of captured samples asks for: four for each sample.
pub fn read_size(channels: u16) -> (r: usize)
    ensures
        r == FRAMES_PER_CHUNK * channels * 4,
{
    FRAMES_PER_CHUNK * channels as usize * 4
}

/// What came of a read from the recorder.
#[derive(Clone, Copy, PartialEq, Eq, Structural, Debug)]
pub enum ReadEvent {
    /// So many bytes; none at the end.
    Bytes(usize),
    /// The read was interrupted.
    Interrupted,
    /// The read failed.
    Failed,
}

/// What a capture does next.
#[derive(Clone, Copy, PartialEq, Eq, Structural, Debug)]
pub enum CaptureStep {
    /// It reads.
    Read,
    /// It measures the samples of so many bytes, hands them on where `send` says so, and goes on.
    Use { bytes: usize, send: bool },
    /// It ends.
    End,
    /// It ends with an error.
    Fail,
}

/// What a capture does before a read: it ends where it is told to stop.
pub fn before_read(stop: bool) -> (r: CaptureStep)
    ensures
        r == if stop {
            CaptureStep::End
        } else {
            CaptureStep::Read
        },
{
    if stop {
        CaptureStep::End
    } else {
        CaptureStep::Read
    }
}

/// What a capture does after a read. Samples are handed on only while the music is streamed.
pub fn after_read(event: ReadEvent, streaming: bool) -> (r: CaptureStep)
    ensures
        r == match event {
            ReadEvent::Bytes(n) => if n == 0 {
                CaptureStep::End
            } else {
                CaptureStep::Use { bytes: n, send: streaming }
            },
            ReadEvent::Interrupted => CaptureStep::Read,
            ReadEvent::Failed => CaptureStep::Fail,
        },
        r is Fail <==> event is Failed,
        r is Read <==> event is Interrupted,
        r matches CaptureStep::Use { bytes, send } ==> event == ReadEvent::Bytes(bytes) && bytes > 0
            && send == streaming,
{
    match event {
        ReadEvent::Bytes(n) => if n == 0 {
            CaptureStep::End
        } else {
            CaptureStep::Use { bytes: n, send: streaming }
        },
        ReadEvent::Interrupted => CaptureStep::Read,
        ReadEvent::Failed => CaptureStep::Fail,
    }
}

// Encoding.

/// What an encoder is made with.
#[derive(Clone, Copy, PartialEq, Eq, Structural, Debug)]
pub enum EncoderSetup {
    Opus { sample_rate: u32, mono: bool, bitrate: i32 },
    Vorbis { sample_rate: u32, channels: u8, quality: FloatBits },
}

/// Why no encoder can be made.
#[derive(Clone, Copy, PartialEq, Eq, Structural, Debug)]
pub enum SetupError {
    /// A Vorbis stream has a sample rate.
    InvalidSampleRate,
    /// A Vorbis stream has channels, and their number takes a byte.
    InvalidChannelCount,
}

impl SetupError {
    /// What is wrong.
    pub fn message(&self) -> (r: String)
        ensures
            r@ == match *self {
                SetupError::InvalidSampleRate => "Invalid sample rate"@,
                SetupError::InvalidChannelCount => "Invalid channel count"@,
            },
    {
        match self {
            SetupError::InvalidSampleRate => "Invalid sample rate".to_string(),
            SetupError::InvalidChannelCount => "Invalid channel count".to_string(),
        }
    }
}

/// What the console says of an encoder. `quality` is the quality with one decimal.
pub open spec fn encoding_line(config: AudioConfig, quality: Seq<char>) -> Seq<char> {
    let format = decimal(config.sample_rate as nat) + "Hz, "@ + decimal(config.channels as nat);
    match config.codec {
        Codec::Opus => "Encoding: OGG Opus, "@ + format + "ch, "@ + decimal(
            config.opus_bitrate_kbps as nat,
        ) + "kbps"@,
        Codec::Vorbis => "Encoding: OGG Vorbis, "@ + format + "ch, quality "@ + quality,
    }
}

/// What the console says of an encoder. `quality` is the quality with one decimal.
pub fn encoding_text(config: &AudioConfig, quality: &str) -> (r: String)
    ensures
        r@ == encoding_line(*config, quality@),
{
    let mut out = String::new();
    match config.codec {
        Codec::Opus => {
            out.append("Encoding: OGG Opus, ");
            push_decimal(&mut out, config.sample_rate as u64);
            out.append("Hz, ");
            push_decimal(&mut out, config.channels as u64);
            out.append("ch, ");
            push_decimal(&mut out, config.opus_bitrate_kbps as u64);
            out.append("kbps");
        },
        Codec::Vorbis => {
            out.append("Encoding: OGG Vorbis, ");
            push_decimal(&mut out, config.sample_rate as u64);
            out.append("Hz, ");
            push_decimal(&mut out, config.channels as u64);
            out.append("ch, quality ");
            out.append(quality);
        },
    }
    assert(out@ =~= encoding_line(*config, quality@));
    out
}

/// A number of 32 bits, read as a signed one.
pub open spec fn as_signed(n: int) -> int {
    if n <= i32::MAX {
        n
    } else {
        n - 4294967296
    }
}

/// What the encoder of a configuration is made with. Opus has one channel or two; Vorbis keeps
/// the low byte of the number of channels.
pub fn encoder_setup(config: &AudioConfig) -> (r: Result<EncoderSetup, SetupError>)
    requires
        config.codec == Codec::Opus ==> config.opus_bitrate_kbps * 1000 <= u32::MAX,
    ensures
        (match config.codec {
            Codec::Opus => r matches Ok(EncoderSetup::Opus { sample_rate, mono, bitrate })
                && sample_rate == config.sample_rate && mono == (config.channels == 1) && bitrate
                == as_signed(config.opus_bitrate_kbps * 1000),
            Codec::Vorbis => r == (if config.sample_rate == 0 {
                Err::<EncoderSetup, SetupError>(SetupError::InvalidSampleRate)
            } else if config.channels % 256 == 0 {
                Err(SetupError::InvalidChannelCount)
            } else {
                Ok(
                    EncoderSetup::Vorbis {
                        sample_rate: config.sample_rate,
                        channels: (config.channels % 256) as u8,
                        quality: config.vorbis_quality,
                    },
                )
            }),
        }),
        r is Err ==> config.codec == Codec::Vorbis && (config.sample_rate == 0 || config.channels
            % 256 == 0),
        r matches Ok(EncoderSetup::Vorbis { sample_rate, channels, quality }) ==> config.codec
            == Codec::Vorbis && sample_rate == config.sample_rate && quality
            == config.vorbis_quality && channels > 0 && (config.channels < 256 ==> channels
            == config.channels),
        r matches Ok(EncoderSetup::Opus { sample_rate, mono, bitrate }) ==> config.codec
            == Codec::Opus && sample_rate == config.sample_rate && (mono <==> config.channels == 1)
            && (config.opus_bitrate_kbps <= 2147483 ==> bitrate == 1000 * config.opus_bitrate_kbps),
{
    match config.codec {
        Codec::Opus => {
            let bits: u32 = config.opus_bitrate_kbps * 1000;
            let bitrate: i32 = if bits <= 2147483647 {
                bits as i32
            } else {
                (bits as i64 - 4294967296) as i32
            };
            Ok(
                EncoderSetup::Opus {
                    sample_rate: config.sample_rate,
                    mono: config.channels == 1,
                    bitrate,
                },
            )
        },
        Codec::Vorbis => {
            if config.sample_rate == 0 {
                return Err(SetupError::InvalidSampleRate);
            }
            let channels: u8 = (config.channels % 256) as u8;
            if channels == 0 {
                return Err(SetupError::InvalidChannelCount);
            }
            Ok(
                EncoderSetup::Vorbis {
                    sample_rate: config.sample_rate,
                    channels,
                    quality: config.vorbis_quality,
                },
            )
        },
    }
}

// What holds of the recorder and of the encoders.

/// The recorder is told the rate, the channels and the device, each behind its own option: what is
/// read back there is what was asked for, so that other wishes give other arguments.
pub proof fn the_recorder_is_told(serial: u32, rate: u32, channels: u16)
    ensures
        ({
            let args = record_args(serial, rate, channels);
            &&& args.len() == 12
            &&& args[3] == "--rate"@ && digits_value(args[4]) == rate && all_digits(args[4])
            &&& args[5] == "--channels"@ && digits_value(args[6]) == channels && all_digits(args[6])
            &&& args[9] == "--target"@ && digits_value(args[10]) == serial && all_digits(args[10])
            &&& args[1] == "--format"@ && args[2] == "f32"@
            &&& args[0] == "--raw"@ && args[11] == "-"@
        }),
{
    decimal_reads_back(rate as nat);
    decimal_reads_back(channels as nat);
    decimal_reads_back(serial as nat);
}

/// The console names the codec of an encoder, its rate and its channels, and the bitrate of Opus or
/// the quality of Vorbis.
pub proof fn encoders_are_described(config: AudioConfig, quality: Seq<char>) -> (r: (
    Seq<char>,
    Seq<char>,
    Seq<char>,
))
    ensures
        digits_value(r.0) == config.sample_rate && all_digits(r.0),
        digits_value(r.1) == config.channels && all_digits(r.1),
        digits_value(r.2) == config.opus_bitrate_kbps && all_digits(r.2),
        config.codec == Codec::Opus ==> encoding_line(config, quality) == "Encoding: OGG Opus, "@
            + r.0 + "Hz, "@ + r.1 + "ch, "@ + r.2 + "kbps"@,
        config.codec == Codec::Vorbis ==> encoding_line(config, quality)
            == "Encoding: OGG Vorbis, "@ + r.0 + "Hz, "@ + r.1 + "ch, quality "@ + quality,
{
    let r = (
        decimal(config.sample_rate as nat),
        decimal(config.channels as nat),
        decimal(config.opus_bitrate_kbps as nat),
    );
    decimal_reads_back(config.sample_rate as nat);
    decimal_reads_back(config.channels as nat);
    decimal_reads_back(config.opus_bitrate_kbps as nat);
    assert(config.codec == Codec::Opus ==> encoding_line(config, quality)
        =~= "Encoding: OGG Opus, "@ + r.0 + "Hz, "@ + r.1 + "ch, "@ + r.2 + "kbps"@);
    assert(config.codec == Codec::Vorbis ==> encoding_line(config, quality)
        =~= "Encoding: OGG Vorbis, "@ + r.0 + "Hz, "@ + r.1 + "ch, quality "@ + quality);
    r
}

/// A number of 32 bits keeps its bits when it is read as a signed one: it stays the same where 31
/// bits hold it, and differs by all that 32 bits hold otherwise.
pub proof fn signed_numbers_keep_their_bits(n: int)
    requires
        0 <= n < 0x1_0000_0000,
    ensures
        -0x8000_0000 <= as_signed(n) < 0x8000_0000,
        as_signed(n) == n || as_signed(n) + 0x1_0000_0000 == n,
{
}

} // verus!
