//! What runs: the captures, the push-to-talk listener, the player listener and the stream.
//!
//! An [`AppState`] notes what is running. Its methods decide what is to be started and stopped,
//! and hand that out as a list of [`Effect`]s, to be carried out in their order.
use vstd::prelude::*;
use crate::config::{Config, ConfigView};
use crate::pipewire::{DeviceView, PwDevice};
use crate::pipewire::device_views;
use crate::text::{push_decimal, same_text};
use crate::text::decimal;

verus! {

/// What runs on a thread of its own.
#[derive(Clone, Copy, PartialEq, Eq, Structural, Debug)]
pub enum Worker {
    Capture,
    MicCapture,
    Ptt,
    Metadata,
    Stream,
}

/// What is to be done.
#[derive(Clone, Copy, PartialEq, Eq, Structural, Debug)]
pub enum Effect {
    /// Tell a worker to stop, and let go of its stop flag.
    Stop { worker: Worker },
    /// End the recorder of a capture.
    Kill { worker: Worker },
    /// Let go of a worker and of the samples that it sends.
    Release { worker: Worker },
    /// Start a capture of a device, with a stop flag and a channel of its own.
    StartCapture { worker: Worker, serial: u32 },
    /// Start another worker, with a stop flag of its own.
    Start { worker: Worker },
    /// Say whether samples are to be handed on.
    SetStreaming { on: bool },
    /// Say whether the microphone is opened by the button.
    SetMicToggled { on: bool },
    /// Say that the microphone is not opened by the key.
    ClearMicPtt,
    /// Say in the console that the server is being connected to.
    SayConnecting,
    /// Say in the console that the stream was stopped.
    SayStopped,
}

/// What runs, and with what.
#[derive(Debug)]
pub struct AppState {
    /// Whether a capture is held.
    pub capture_thread: bool,
    /// Whether the stop flag of the capture is held.
    pub capture_stop: bool,
    /// Whether the samples of the capture can be received.
    pub pcm_rx: bool,
    pub current_device: String,
    pub mic_capture_thread: bool,
    pub mic_capture_stop: bool,
    pub mic_rx: bool,
    pub current_mic_device: String,
    pub is_mic_toggled: bool,
    pub ptt_stop: bool,
    /// Whether samples are to be handed on to the stream.
    pub is_streaming_flag: bool,
    pub is_streaming: bool,
    pub stream_thread: bool,
    pub stream_stop: bool,
    pub timer_seconds: u32,
}

/// The contents of an [`AppState`].
pub struct StateView {
    pub capture_thread: bool,
    pub capture_stop: bool,
    pub pcm_rx: bool,
    pub current_device: Seq<char>,
    pub mic_capture_thread: bool,
    pub mic_capture_stop: bool,
    pub mic_rx: bool,
    pub current_mic_device: Seq<char>,
    pub is_mic_toggled: bool,
    pub ptt_stop: bool,
    pub is_streaming_flag: bool,
    pub is_streaming: bool,
    pub stream_thread: bool,
    pub stream_stop: bool,
    pub timer_seconds: u32,
}

impl View for AppState {
    type V = StateView;

    open spec fn view(&self) -> StateView {
        StateView {
            capture_thread: self.capture_thread,
            capture_stop: self.capture_stop,
            pcm_rx: self.pcm_rx,
            current_device: self.current_device@,
            mic_capture_thread: self.mic_capture_thread,
            mic_capture_stop: self.mic_capture_stop,
            mic_rx: self.mic_rx,
            current_mic_device: self.current_mic_device@,
            is_mic_toggled: self.is_mic_toggled,
            ptt_stop: self.ptt_stop,
            is_streaming_flag: self.is_streaming_flag,
            is_streaming: self.is_streaming,
            stream_thread: self.stream_thread,
            stream_stop: self.stream_stop,
            timer_seconds: self.timer_seconds,
        }
    }
}

impl StateView {
    /// Samples can be received exactly from a capture that is held, only such a capture has a stop
    /// flag and a device, only a stream that is held is streaming or has a stop flag, samples are
    /// handed on only while streaming, and the clock of a stream that is not stands at zero.
    pub open spec fn well_formed(self) -> bool {
        &&& self.pcm_rx == self.capture_thread
        &&& self.capture_stop ==> self.capture_thread
        &&& !self.capture_thread ==> self.current_device.len() == 0
        &&& self.mic_rx == self.mic_capture_thread
        &&& self.mic_capture_stop ==> self.mic_capture_thread
        &&& !self.mic_capture_thread ==> self.current_mic_device.len() == 0
        &&& self.is_streaming ==> self.stream_thread
        &&& self.stream_stop ==> self.stream_thread
        &&& self.is_streaming_flag ==> self.is_streaming
        &&& !self.is_streaming ==> self.timer_seconds == 0
    }
}

/// Nothing runs.
pub open spec fn idle_state() -> StateView {
    StateView {
        capture_thread: false,
        capture_stop: false,
        pcm_rx: false,
        current_device: Seq::empty(),
        mic_capture_thread: false,
        mic_capture_stop: false,
        mic_rx: false,
        current_mic_device: Seq::empty(),
        is_mic_toggled: false,
        ptt_stop: false,
        is_streaming_flag: false,
        is_streaming: false,
        stream_thread: false,
        stream_stop: false,
        timer_seconds: 0,
    }
}

impl Default for AppState {
    fn default() -> (r: Self)
        ensures
            r@ == idle_state(),
            r@.well_formed(),
    {
        AppState {
            capture_thread: false,
            capture_stop: false,
            pcm_rx: false,
            current_device: String::new(),
            mic_capture_thread: false,
            mic_capture_stop: false,
            mic_rx: false,
            current_mic_device: String::new(),
            is_mic_toggled: false,
            ptt_stop: false,
            is_streaming_flag: false,
            is_streaming: false,
            stream_thread: false,
            stream_stop: false,
            timer_seconds: 0,
        }
    }
}

// Devices.

/// The serial number of the first device of a name.
pub open spec fn device_serial(devices: Seq<DeviceView>, name: Seq<char>) -> Option<u32>
    decreases devices.len(),
{
    if devices.len() == 0 {
        None
    } else if devices[0].display_name == name {
        Some(devices[0].serial)
    } else {
        device_serial(devices.drop_first(), name)
    }
}

/// Finds the first device of a name.
pub fn find_device(devices: &Vec<PwDevice>, name: &str) -> (r: Option<u32>)
    ensures
        r == device_serial(device_views(devices@), name@),
        (match r {
            Some(serial) => exists|i: int|
                {
                    &&& 0 <= i < devices@.len()
                    &&& (#[trigger] devices@[i]).display_name@ == name@
                    &&& devices@[i].serial == serial
                    &&& forall|j: int|
                        0 <= j < i ==> (#[trigger] devices@[j]).display_name@ != name@
                },
            None => forall|i: int|
                0 <= i < devices@.len() ==> (#[trigger] devices@[i]).display_name@ != name@,
        }),
{
    let ghost views = device_views(devices@);
    let n = devices.len();
    let mut i: usize = 0;
    assert(views.skip(0) =~= views);
    while i < n
        invariant
            i <= n,
            n == devices@.len(),
            views == device_views(devices@),
            device_serial(views, name@) == device_serial(views.skip(i as int), name@),
            forall|j: int| 0 <= j < i ==> (#[trigger] devices@[j]).display_name@ != name@,
        decreases n - i,
    {
        proof {
            assert(views.skip(i as int)[0] == devices@[i as int]@);
            assert(views.skip(i as int).drop_first() =~= views.skip(i + 1));
        }
        if same_text(devices[i].display_name.as_str(), name) {
            return Some(devices[i].serial);
        }
        i = i + 1;
    }
    None
}

/// The process to end, where a recorder runs: its number, read as a signed one.
pub fn kill_target(pid: u32) -> (r: Option<i32>)
    ensures
        r == if pid == 0 {
            None
        } else {
            Some(pid as i32)
        },
        r is None <==> pid == 0,
        r matches Some(p) ==> p == pid || p + 0x1_0000_0000 == pid,
{
    assert(pid as i32 == pid || (pid as i32) + 0x1_0000_0000 == pid) by (bit_vector);
    if pid != 0 {
        Some(pid as i32)
    } else {
        None
    }
}

// Captures.

/// What stops a worker whose stop flag is held.
pub open spec fn stop_if(held: bool, worker: Worker) -> Seq<Effect> {
    if held {
        seq![Effect::Stop { worker }]
    } else {
        Seq::empty()
    }
}

impl StateView {
    pub open spec fn capture_stopped(self) -> StateView {
        StateView {
            capture_thread: false,
            capture_stop: false,
            pcm_rx: false,
            current_device: Seq::empty(),
            ..self
        }
    }

    pub open spec fn stop_capture_effects(self) -> Seq<Effect> {
        stop_if(self.capture_stop, Worker::Capture) + seq![
            Effect::Kill { worker: Worker::Capture },
            Effect::Release { worker: Worker::Capture },
        ]
    }

    pub open spec fn capture_started(self, device: Seq<char>) -> StateView {
        StateView {
            capture_thread: true,
            capture_stop: true,
            pcm_rx: true,
            current_device: device,
            ..self
        }
    }

    pub open spec fn start_capture_effects(self, serial: u32) -> Seq<Effect> {
        self.stop_capture_effects().push(
            Effect::StartCapture { worker: Worker::Capture, serial },
        )
    }

    pub open spec fn mic_stopped(self) -> StateView {
        StateView {
            mic_capture_thread: false,
            mic_capture_stop: false,
            mic_rx: false,
            current_mic_device: Seq::empty(),
            ..self
        }
    }

    pub open spec fn stop_mic_effects(self) -> Seq<Effect> {
        stop_if(self.mic_capture_stop, Worker::MicCapture) + seq![
            Effect::Kill { worker: Worker::MicCapture },
            Effect::Release { worker: Worker::MicCapture },
        ]
    }

    pub open spec fn mic_started(self, device: Seq<char>) -> StateView {
        StateView {
            mic_capture_thread: true,
            mic_capture_stop: true,
            mic_rx: true,
            current_mic_device: device,
            ..self
        }
    }

    pub open spec fn start_mic_effects(self, serial: u32) -> Seq<Effect> {
        self.stop_mic_effects().push(Effect::StartCapture { worker: Worker::MicCapture, serial })
    }

    pub open spec fn stop_ptt_effects(self) -> Seq<Effect> {
        stop_if(self.ptt_stop, Worker::Ptt) + seq![
            Effect::Release { worker: Worker::Ptt },
            Effect::ClearMicPtt,
        ]
    }

    pub open spec fn start_ptt_effects(self) -> Seq<Effect> {
        self.stop_ptt_effects().push(Effect::Start { worker: Worker::Ptt })
    }
}

fn push_stop(effects: &mut Vec<Effect>, held: bool, worker: Worker)
    ensures
        final(effects)@ == old(effects)@ + stop_if(held, worker),
{
    if held {
        effects.push(Effect::Stop { worker });
    }
    assert(effects@ =~= old(effects)@ + stop_if(held, worker));
}

fn push_kill(effects: &mut Vec<Effect>, worker: Worker)
    ensures
        final(effects)@ == old(effects)@ + seq![Effect::Kill { worker }],
{
    effects.push(Effect::Kill { worker });
    assert(effects@ =~= old(effects)@ + seq![Effect::Kill { worker }]);
}

impl AppState {
    /// Stops the capture of the music.
    pub fn stop_capture(&mut self) -> (r: Vec<Effect>)
        ensures
            final(self)@ == old(self)@.capture_stopped(),
            r@ == old(self)@.stop_capture_effects(),
            old(self)@.well_formed() ==> final(self)@.well_formed(),
    {
        let mut effects: Vec<Effect> = Vec::new();
        push_stop(&mut effects, self.capture_stop, Worker::Capture);
        self.capture_stop = false;
        effects.push(Effect::Kill { worker: Worker::Capture });
        self.capture_thread = false;
        self.pcm_rx = false;
        self.current_device = String::new();
        effects.push(Effect::Release { worker: Worker::Capture });
        assert(effects@ =~= old(self)@.stop_capture_effects());
        effects
    }

    /// Starts to capture the music from a device, in place of what was captured before.
    pub fn start_capture(&mut self, serial: u32, config: &Config) -> (r: Vec<Effect>)
        ensures
            final(self)@ == old(self)@.capture_started(config.input_device@),
            r@ == old(self)@.start_capture_effects(serial),
            old(self)@.well_formed() ==> final(self)@.well_formed(),
    {
        let mut effects = self.stop_capture();
        self.pcm_rx = true;
        self.capture_stop = true;
        self.current_device = config.input_device.clone();
        self.capture_thread = true;
        effects.push(Effect::StartCapture { worker: Worker::Capture, serial });
        effects
    }

    /// Stops the capture of the microphone.
    pub fn stop_mic_capture(&mut self) -> (r: Vec<Effect>)
        ensures
            final(self)@ == old(self)@.mic_stopped(),
            r@ == old(self)@.stop_mic_effects(),
            old(self)@.well_formed() ==> final(self)@.well_formed(),
    {
        let mut effects: Vec<Effect> = Vec::new();
        push_stop(&mut effects, self.mic_capture_stop, Worker::MicCapture);
        self.mic_capture_stop = false;
        effects.push(Effect::Kill { worker: Worker::MicCapture });
        self.mic_capture_thread = false;
        self.mic_rx = false;
        self.current_mic_device = String::new();
        effects.push(Effect::Release { worker: Worker::MicCapture });
        assert(effects@ =~= old(self)@.stop_mic_effects());
        effects
    }

    /// Starts to capture the microphone, in place of what was captured before.
    pub fn start_mic_capture(&mut self, serial: u32, config: &Config) -> (r: Vec<Effect>)
        ensures
            final(self)@ == old(self)@.mic_started(config.mic_device@),
            r@ == old(self)@.start_mic_effects(serial),
            old(self)@.well_formed() ==> final(self)@.well_formed(),
    {
        let mut effects = self.stop_mic_capture();
        self.mic_rx = true;
        self.mic_capture_stop = true;
        self.current_mic_device = config.mic_device.clone();
        self.mic_capture_thread = true;
        effects.push(Effect::StartCapture { worker: Worker::MicCapture, serial });
        effects
    }

    /// Stops to listen for the key.
    pub fn stop_ptt(&mut self) -> (r: Vec<Effect>)
        ensures
            final(self)@ == (StateView { ptt_stop: false, ..old(self)@ }),
            r@ == old(self)@.stop_ptt_effects(),
            old(self)@.well_formed() ==> final(self)@.well_formed(),
    {
        let mut effects: Vec<Effect> = Vec::new();
        push_stop(&mut effects, self.ptt_stop, Worker::Ptt);
        self.ptt_stop = false;
        effects.push(Effect::Release { worker: Worker::Ptt });
        effects.push(Effect::ClearMicPtt);
        assert(effects@ =~= old(self)@.stop_ptt_effects());
        effects
    }

    /// Starts to listen for the key, in place of the one before.
    pub fn start_ptt(&mut self) -> (r: Vec<Effect>)
        ensures
            final(self)@ == (StateView { ptt_stop: true, ..old(self)@ }),
            r@ == old(self)@.start_ptt_effects(),
            old(self)@.well_formed() ==> final(self)@.well_formed(),
    {
        let mut effects = self.stop_ptt();
        self.ptt_stop = true;
        effects.push(Effect::Start { worker: Worker::Ptt });
        effects
    }

    /// Opens the microphone by the button, or closes it.
    pub fn toggle_mic(&mut self) -> (r: Effect)
        ensures
            final(self)@ == (StateView {
                is_mic_toggled: !old(self)@.is_mic_toggled,
                ..old(self)@
            }),
            r == (Effect::SetMicToggled { on: !old(self)@.is_mic_toggled }),
            old(self)@.well_formed() ==> final(self)@.well_formed(),
    {
        self.is_mic_toggled = !self.is_mic_toggled;
        Effect::SetMicToggled { on: self.is_mic_toggled }
    }
}

/// Whether the microphone is open: by the button or by the key.
pub fn is_mic_active(toggled: bool, ptt: bool) -> (r: bool)
    ensures
        r == (toggled || ptt),
{
    toggled || ptt
}

// The stream.

/// Why a stream is not started.
#[derive(Clone, Copy, PartialEq, Eq, Structural, Debug)]
pub enum StartError {
    /// The host, the mount or the password is missing.
    NotConfigured,
    /// There is no device of the name that is set.
    NoDevice,
    /// There are no samples to receive.
    NotReady,
}

/// What is said of it.
pub open spec fn start_error_text(e: StartError) -> Seq<char> {
    match e {
        StartError::NotConfigured => "Configure server in preferences"@,
        StartError::NoDevice => "Select input device in preferences"@,
        StartError::NotReady => "Capture not ready"@,
    }
}

impl StartError {
    /// What is said of it.
    pub fn message(&self) -> (r: String)
        ensures
            r@ == start_error_text(*self),
    {
        match self {
            StartError::NotConfigured => "Configure server in preferences".to_string(),
            StartError::NoDevice => "Select input device in preferences".to_string(),
            StartError::NotReady => "Capture not ready".to_string(),
        }
    }
}

/// What the console says when the server is being connected to.
pub fn connecting_text(config: &Config) -> (r: String)
    ensures
        r@ == "Connecting to "@ + config.host@ + ":"@ + decimal(config.port as nat)
            + config.mount@,
{
    let mut out = String::new();
    out.append("Connecting to ");
    out.append(config.host.as_str());
    out.append(":");
    push_decimal(&mut out, config.port as u64);
    out.append(config.mount.as_str());
    assert(out@ =~= "Connecting to "@ + config.host@ + ":"@ + decimal(config.port as nat)
        + config.mount@);
    out
}

/// Whether the server is set.
pub open spec fn server_set(config: ConfigView) -> bool {
    config.host.len() > 0 && config.mount.len() > 0 && config.password.len() > 0
}

impl StateView {
    /// Whether the device that is set has to be captured first.
    pub open spec fn lacks_capture(self, config: ConfigView) -> bool {
        !self.capture_thread || config.input_device != self.current_device
    }

    pub open spec fn stream_started(self) -> StateView {
        StateView {
            stream_stop: true,
            is_streaming_flag: true,
            stream_thread: true,
            is_streaming: true,
            timer_seconds: 0,
            ..self
        }
    }

    pub open spec fn stream_stopped(self) -> StateView {
        StateView {
            stream_stop: false,
            is_streaming_flag: false,
            stream_thread: false,
            is_streaming: false,
            timer_seconds: 0,
            ..self
        }
    }

    pub open spec fn stop_streaming_effects(self) -> Seq<Effect> {
        seq![Effect::SetStreaming { on: false }] + stop_if(self.stream_stop, Worker::Stream)
            + seq![Effect::Release { worker: Worker::Stream }, Effect::SayStopped]
    }

    pub open spec fn shut_down(self) -> StateView {
        StateView {
            is_streaming_flag: false,
            stream_stop: false,
            capture_stop: false,
            mic_capture_stop: false,
            ptt_stop: false,
            ..self
        }
    }

    pub open spec fn shutdown_effects(self) -> Seq<Effect> {
        seq![Effect::SetStreaming { on: false }] + stop_if(self.stream_stop, Worker::Stream)
            + stop_if(self.capture_stop, Worker::Capture) + seq![
            Effect::Kill { worker: Worker::Capture },
        ] + stop_if(self.mic_capture_stop, Worker::MicCapture) + seq![
            Effect::Kill { worker: Worker::MicCapture },
        ] + stop_if(self.ptt_stop, Worker::Ptt) + seq![Effect::Stop { worker: Worker::Metadata }]
    }
}

/// What starts a stream of samples that can be received.
pub open spec fn start_stream_effects() -> Seq<Effect> {
    seq![
        Effect::SayConnecting,
        Effect::SetStreaming { on: true },
        Effect::Start { worker: Worker::Stream },
    ]
}

fn push_start_stream(effects: &mut Vec<Effect>)
    ensures
        final(effects)@ == old(effects)@ + start_stream_effects(),
{
    effects.push(Effect::SayConnecting);
    effects.push(Effect::SetStreaming { on: true });
    effects.push(Effect::Start { worker: Worker::Stream });
    assert(effects@ =~= old(effects)@ + start_stream_effects());
}

impl AppState {
    /// Whether starting a stream asks for the devices.
    pub fn needs_devices(&self, config: &Config) -> (r: bool)
        ensures
            r == (server_set(config@) && self@.lacks_capture(config@)),
    {
        !(config.host.as_str().is_empty() || config.mount.as_str().is_empty()
            || config.password.as_str().is_empty()) && (!self.capture_thread || !same_text(
            config.input_device.as_str(),
            self.current_device.as_str(),
        ))
    }

    /// Starts a stream, after the capture of the device that is set where that does not run. The
    /// devices are read only where [`AppState::needs_devices`] says so.
    pub fn start_streaming(&mut self, config: &Config, devices: &Vec<PwDevice>) -> (r: Result<
        Vec<Effect>,
        StartError,
    >)
        ensures
            ({
                let before = old(self)@;
                let after = final(self)@;
                let found = device_serial(device_views(devices@), config.input_device@);
                if !server_set(config@) {
                    r == Err::<Vec<Effect>, StartError>(StartError::NotConfigured) && after
                        == before
                } else if before.lacks_capture(config@) {
                    match found {
                        Some(serial) => r matches Ok(effects) && effects@
                            == before.start_capture_effects(serial) + start_stream_effects()
                            && after == before.capture_started(
                            config.input_device@,
                        ).stream_started(),
                        None => r == Err::<Vec<Effect>, StartError>(StartError::NoDevice) && after
                            == before,
                    }
                } else if before.pcm_rx {
                    r matches Ok(effects) && effects@ == start_stream_effects() && after
                        == before.stream_started()
                } else {
                    r == Err::<Vec<Effect>, StartError>(StartError::NotReady) && after == before
                }
            }),
            old(self)@.well_formed() ==> final(self)@.well_formed() && r
                != Err::<Vec<Effect>, StartError>(StartError::NotReady),
            r == Err::<Vec<Effect>, StartError>(StartError::NotConfigured) <==> config.host@.len()
                == 0 || config.mount@.len() == 0 || config.password@.len() == 0,
            r == Err::<Vec<Effect>, StartError>(StartError::NoDevice) ==> forall|i: int|
                0 <= i < devices@.len() ==> (#[trigger] devices@[i]).display_name@
                    != config.input_device@,
            r is Err ==> final(self)@ == old(self)@,
            r matches Ok(effects) ==> {
                &&& final(self).is_streaming && final(self).capture_thread
                &&& final(self).current_device@ == config.input_device@
                &&& final(self).timer_seconds == 0
                &&& final(self)@.same_mic(old(self)@)
                &&& effects@.len() >= 3
                &&& effects@.last() == (Effect::Start { worker: Worker::Stream })
                &&& effects@[effects@.len() - 2] == (Effect::SetStreaming { on: true })
                &&& effects@[effects@.len() - 3] == Effect::SayConnecting
                &&& old(self).capture_thread && old(self).current_device@ == config.input_device@
                    ==> effects@.len() == 3
            },
    {
        proof {
            the_named_device_is_found(device_views(devices@), config.input_device@);
            assert(forall|i: int|
                0 <= i < devices@.len() ==> device_views(devices@)[i].display_name == (
                #[trigger] devices@[i]).display_name@);
        }
        if config.host.as_str().is_empty() || config.mount.as_str().is_empty()
            || config.password.as_str().is_empty() {
            return Err(StartError::NotConfigured);
        }
        let mut effects: Vec<Effect> = Vec::new();
        if !self.capture_thread || !same_text(
            config.input_device.as_str(),
            self.current_device.as_str(),
        ) {
            match find_device(devices, config.input_device.as_str()) {
                Some(serial) => {
                    effects = self.start_capture(serial, config);
                },
                None => {
                    return Err(StartError::NoDevice);
                },
            }
        }
        if !self.pcm_rx {
            return Err(StartError::NotReady);
        }
        push_start_stream(&mut effects);
        assert(Seq::<Effect>::empty() + start_stream_effects() =~= start_stream_effects());
        self.stream_stop = true;
        self.is_streaming_flag = true;
        self.stream_thread = true;
        self.is_streaming = true;
        self.timer_seconds = 0;
        Ok(effects)
    }

    /// Stops the stream.
    pub fn stop_streaming(&mut self) -> (r: Vec<Effect>)
        ensures
            final(self)@ == old(self)@.stream_stopped(),
            r@ == old(self)@.stop_streaming_effects(),
            old(self)@.well_formed() ==> final(self)@.well_formed(),
    {
        let mut effects: Vec<Effect> = Vec::new();
        self.is_streaming_flag = false;
        effects.push(Effect::SetStreaming { on: false });
        push_stop(&mut effects, self.stream_stop, Worker::Stream);
        self.stream_stop = false;
        self.stream_thread = false;
        effects.push(Effect::Release { worker: Worker::Stream });
        effects.push(Effect::SayStopped);
        self.is_streaming = false;
        self.timer_seconds = 0;
        assert(effects@ =~= old(self)@.stop_streaming_effects());
        effects
    }

    /// Tells everything to stop, at the end of the program.
    pub fn shutdown(&mut self) -> (r: Vec<Effect>)
        ensures
            final(self)@ == old(self)@.shut_down(),
            r@ == old(self)@.shutdown_effects(),
            old(self)@.well_formed() ==> final(self)@.well_formed(),
    {
        let mut effects: Vec<Effect> = Vec::new();
        self.is_streaming_flag = false;
        effects.push(Effect::SetStreaming { on: false });
        assert(effects@ =~= seq![Effect::SetStreaming { on: false }]);
        push_stop(&mut effects, self.stream_stop, Worker::Stream);
        self.stream_stop = false;
        push_stop(&mut effects, self.capture_stop, Worker::Capture);
        self.capture_stop = false;
        push_kill(&mut effects, Worker::Capture);
        push_stop(&mut effects, self.mic_capture_stop, Worker::MicCapture);
        self.mic_capture_stop = false;
        push_kill(&mut effects, Worker::MicCapture);
        push_stop(&mut effects, self.ptt_stop, Worker::Ptt);
        self.ptt_stop = false;
        let ghost before = effects@;
        effects.push(Effect::Stop { worker: Worker::Metadata });
        assert(effects@ =~= before + seq![Effect::Stop { worker: Worker::Metadata }]);
        effects
    }
}

// What the program does when it starts, and when the settings may have changed.

impl StateView {
    /// Whether the settings ask for another capture of the music.
    pub open spec fn wants_capture(self, config: ConfigView) -> bool {
        config.input_device.len() > 0 && !self.is_streaming && config.input_device
            != self.current_device
    }

    /// Whether the settings ask for another capture of the microphone.
    pub open spec fn wants_mic(self, config: ConfigView) -> bool {
        config.mic_device.len() > 0 && !self.is_streaming && config.mic_device
            != self.current_mic_device
    }

    /// What runs after the capture of the music has been brought in line with the settings.
    pub open spec fn capture_restarted(self, config: ConfigView, found: Option<u32>) -> StateView {
        if self.wants_capture(config) && found is Some {
            self.capture_started(config.input_device)
        } else {
            self
        }
    }

    pub open spec fn restart_capture_effects(
        self,
        config: ConfigView,
        found: Option<u32>,
    ) -> Seq<Effect> {
        if self.wants_capture(config) && found is Some {
            self.start_capture_effects(found->Some_0)
        } else {
            Seq::empty()
        }
    }

    /// What runs after the capture of the microphone has been brought in line with the settings.
    pub open spec fn mic_restarted(self, config: ConfigView, found: Option<u32>) -> StateView {
        if self.is_streaming || config.mic_device == self.current_mic_device {
            self
        } else if config.mic_device.len() == 0 {
            self.mic_stopped()
        } else if found is Some {
            self.mic_started(config.mic_device)
        } else {
            self
        }
    }

    pub open spec fn restart_mic_effects(
        self,
        config: ConfigView,
        found: Option<u32>,
    ) -> Seq<Effect> {
        if self.is_streaming || config.mic_device == self.current_mic_device {
            Seq::empty()
        } else if config.mic_device.len() == 0 {
            self.stop_mic_effects()
        } else if found is Some {
            self.start_mic_effects(found->Some_0)
        } else {
            Seq::empty()
        }
    }
}

fn push_effects(effects: &mut Vec<Effect>, more: &Vec<Effect>)
    ensures
        final(effects)@ == old(effects)@ + more@,
{
    let n = more.len();
    for i in 0..n
        invariant
            n == more@.len(),
            effects@ == old(effects)@ + more@.take(i as int),
    {
        effects.push(more[i]);
        assert(effects@ =~= old(effects)@ + more@.take(i + 1));
    }
    assert(more@.take(n as int) =~= more@);
}

impl AppState {
    /// Whether the settings ask for another capture of the music, so that the devices are read.
    pub fn wants_other_capture(&self, config: &Config) -> (r: bool)
        ensures
            r == self@.wants_capture(config@),
    {
        !config.input_device.as_str().is_empty() && !self.is_streaming && !same_text(
            config.input_device.as_str(),
            self.current_device.as_str(),
        )
    }

    /// Whether the settings ask for another capture of the microphone, so that the sources are
    /// read.
    pub fn wants_other_mic(&self, config: &Config) -> (r: bool)
        ensures
            r == self@.wants_mic(config@),
    {
        !config.mic_device.as_str().is_empty() && !self.is_streaming && !same_text(
            config.mic_device.as_str(),
            self.current_mic_device.as_str(),
        )
    }

    /// Brings the capture of the music in line with the settings, unless the music is being
    /// streamed. The devices are read only where [`AppState::wants_other_capture`] says so.
    pub fn restart_capture(&mut self, config: &Config, devices: &Vec<PwDevice>) -> (r: Vec<Effect>)
        ensures
            ({
                let found = device_serial(device_views(devices@), config.input_device@);
                &&& final(self)@ == old(self)@.capture_restarted(config@, found)
                &&& r@ == old(self)@.restart_capture_effects(config@, found)
            }),
            old(self)@.well_formed() ==> final(self)@.well_formed(),
    {
        if !self.wants_other_capture(config) {
            return Vec::new();
        }
        match find_device(devices, config.input_device.as_str()) {
            Some(serial) => self.start_capture(serial, config),
            None => Vec::new(),
        }
    }

    /// Brings the capture of the microphone in line with the settings and listens for the key that
    /// is set, unless the music is being streamed. The sources are read only where
    /// [`AppState::wants_other_mic`] says so.
    pub fn restart_mic(&mut self, config: &Config, sources: &Vec<PwDevice>) -> (r: Vec<Effect>)
        ensures
            ({
                let before = old(self)@;
                let found = device_serial(device_views(sources@), config.mic_device@);
                if before.is_streaming {
                    final(self)@ == before && r@.len() == 0
                } else {
                    &&& final(self)@ == (StateView {
                        ptt_stop: true,
                        ..before.mic_restarted(config@, found)
                    })
                    &&& r@ == before.restart_mic_effects(config@, found)
                        + before.start_ptt_effects()
                }
            }),
            old(self)@.well_formed() ==> final(self)@.well_formed(),
    {
        if self.is_streaming {
            return Vec::new();
        }
        let mut effects: Vec<Effect> = Vec::new();
        if !same_text(config.mic_device.as_str(), self.current_mic_device.as_str()) {
            if config.mic_device.as_str().is_empty() {
                effects = self.stop_mic_capture();
            } else {
                match find_device(sources, config.mic_device.as_str()) {
                    Some(serial) => {
                        effects = self.start_mic_capture(serial, config);
                    },
                    None => {},
                }
            }
        }
        let listen = self.start_ptt();
        push_effects(&mut effects, &listen);
        effects
    }

    /// Starts what the settings ask for, when the program starts.
    #[verifier::spinoff_prover]
    #[verifier::rlimit(60)]
    pub fn startup(
        &mut self,
        config: &Config,
        devices: &Vec<PwDevice>,
        sources: &Vec<PwDevice>,
    ) -> (r: Vec<Effect>)
        ensures
            ({
                let before = old(self)@;
                let device = device_serial(device_views(devices@), config.input_device@);
                let source = device_serial(device_views(sources@), config.mic_device@);
                let captures = config.input_device@.len() > 0 && device is Some;
                let listens = config.mic_device@.len() > 0 && source is Some;
                let with_music = if captures {
                    before.capture_started(config.input_device@)
                } else {
                    before
                };
                let with_mic = if listens {
                    with_music.mic_started(config.mic_device@)
                } else {
                    with_music
                };
                &&& final(self)@ == (StateView { ptt_stop: true, ..with_mic })
                &&& r@ == (if captures {
                    before.start_capture_effects(device->Some_0)
                } else {
                    Seq::empty()
                }) + (if listens {
                    before.start_mic_effects(source->Some_0)
                } else {
                    Seq::empty()
                }) + before.start_ptt_effects().push(Effect::Start { worker: Worker::Metadata })
            }),
            old(self)@.well_formed() ==> final(self)@.well_formed(),
    {
        let mut effects: Vec<Effect> = Vec::new();
        if !config.input_device.as_str().is_empty() {
            match find_device(devices, config.input_device.as_str()) {
                Some(serial) => {
                    effects = self.start_capture(serial, config);
                },
                None => {},
            }
        }
        let ghost music = effects@;
        if !config.mic_device.as_str().is_empty() {
            match find_device(sources, config.mic_device.as_str()) {
                Some(serial) => {
                    let mic = self.start_mic_capture(serial, config);
                    push_effects(&mut effects, &mic);
                },
                None => {},
            }
        }
        let ghost captures = effects@;
        assert(captures =~= music + (if config.mic_device@.len() > 0 && device_serial(
            device_views(sources@),
            config.mic_device@,
        ) is Some {
            old(self)@.start_mic_effects(
                device_serial(device_views(sources@), config.mic_device@)->Some_0,
            )
        } else {
            Seq::empty()
        }));
        let listen = self.start_ptt();
        push_effects(&mut effects, &listen);
        effects.push(Effect::Start { worker: Worker::Metadata });
        assert(effects@ =~= captures + listen@.push(Effect::Start { worker: Worker::Metadata }));
        effects
    }
}

// What holds of it.

/// Stopping a stream undoes starting it: what else runs stays as it was.
pub proof fn stop_undoes_start(before: StateView)
    requires
        before.well_formed(),
        !before.stream_thread,
    ensures
        before.stream_started().stream_stopped() == before,
        before.stream_started().stop_streaming_effects() == seq![
            Effect::SetStreaming { on: false },
            Effect::Stop { worker: Worker::Stream },
            Effect::Release { worker: Worker::Stream },
            Effect::SayStopped,
        ],
{
    assert(before.stream_started().stream_stopped() == before);
    assert(before.stream_started().stop_streaming_effects() =~= seq![
        Effect::SetStreaming { on: false },
        Effect::Stop { worker: Worker::Stream },
        Effect::Release { worker: Worker::Stream },
        Effect::SayStopped,
    ]);
}

/// Settings that are in force start nothing again: bringing the captures in line a second time
/// changes nothing and touches neither capture.
pub proof fn restarts_settle(before: StateView, config: ConfigView, found: Option<u32>)
    requires
        before.well_formed(),
    ensures
        ({
            let once = before.capture_restarted(config, found);
            once.capture_restarted(config, found) == once && once.restart_capture_effects(
                config,
                found,
            ).len() == 0
        }),
        ({
            let once = before.mic_restarted(config, found);
            once.mic_restarted(config, found) == once && once.restart_mic_effects(
                config,
                found,
            ).len() == 0
        }),
{
    if config.mic_device.len() == 0 {
        assert(config.mic_device =~= Seq::empty());
    }
}

/// While the music is streamed, no change of the settings touches what is captured.
pub proof fn streaming_keeps_captures(before: StateView, config: ConfigView, found: Option<u32>)
    requires
        before.is_streaming,
    ensures
        before.capture_restarted(config, found) == before,
        before.restart_capture_effects(config, found).len() == 0,
        before.mic_restarted(config, found) == before,
        before.restart_mic_effects(config, found).len() == 0,
{
}

/// The end of the program tells every worker to stop whose stop flag is held, and the listener for
/// the player in any case, and leaves no flag behind.
pub proof fn shutdown_stops_all(before: StateView)
    ensures
        before.stream_stop ==> before.shutdown_effects().contains(
            Effect::Stop { worker: Worker::Stream },
        ),
        before.capture_stop ==> before.shutdown_effects().contains(
            Effect::Stop { worker: Worker::Capture },
        ),
        before.mic_capture_stop ==> before.shutdown_effects().contains(
            Effect::Stop { worker: Worker::MicCapture },
        ),
        before.ptt_stop ==> before.shutdown_effects().contains(
            Effect::Stop { worker: Worker::Ptt },
        ),
        before.shutdown_effects().contains(Effect::Stop { worker: Worker::Metadata }),
        ({
            let after = before.shut_down();
            !after.stream_stop && !after.capture_stop && !after.mic_capture_stop && !after.ptt_stop
        }),
{
    let a = seq![Effect::SetStreaming { on: false }];
    let b = a + stop_if(before.stream_stop, Worker::Stream);
    let c = b + stop_if(before.capture_stop, Worker::Capture);
    let d = c + seq![Effect::Kill { worker: Worker::Capture }];
    let e = d + stop_if(before.mic_capture_stop, Worker::MicCapture);
    let f = e + seq![Effect::Kill { worker: Worker::MicCapture }];
    let g = f + stop_if(before.ptt_stop, Worker::Ptt);
    let h = g + seq![Effect::Stop { worker: Worker::Metadata }];
    assert(h == before.shutdown_effects());
    if before.stream_stop {
        assert(h[a.len() as int] == (Effect::Stop { worker: Worker::Stream }));
    }
    if before.capture_stop {
        assert(h[b.len() as int] == (Effect::Stop { worker: Worker::Capture }));
    }
    if before.mic_capture_stop {
        assert(h[d.len() as int] == (Effect::Stop { worker: Worker::MicCapture }));
    }
    if before.ptt_stop {
        assert(h[f.len() as int] == (Effect::Stop { worker: Worker::Ptt }));
    }
    assert(h[g.len() as int] == (Effect::Stop { worker: Worker::Metadata }));
}

/// A device that is found has the name, and none before it has. Where none is found none has it.
pub proof fn the_named_device_is_found(devices: Seq<DeviceView>, name: Seq<char>)
    ensures
        (match device_serial(devices, name) {
            Some(serial) => exists|i: int|
                {
                    &&& 0 <= i < devices.len()
                    &&& (#[trigger] devices[i]).display_name == name
                    &&& devices[i].serial == serial
                    &&& forall|j: int| 0 <= j < i ==> (#[trigger] devices[j]).display_name != name
                },
            None => forall|i: int|
                0 <= i < devices.len() ==> (#[trigger] devices[i]).display_name != name,
        }),
    decreases devices.len(),
{
    if devices.len() > 0 {
        let rest = devices.drop_first();
        if devices[0].display_name == name {
            assert(device_serial(devices, name) == Some(devices[0].serial));
        } else {
            the_named_device_is_found(rest, name);
            match device_serial(rest, name) {
                Some(serial) => {
                    let i = choose|i: int|
                        {
                            &&& 0 <= i < rest.len()
                            &&& (#[trigger] rest[i]).display_name == name
                            &&& rest[i].serial == serial
                            &&& forall|j: int|
                                0 <= j < i ==> (#[trigger] rest[j]).display_name != name
                        };
                    assert(devices[i + 1] == rest[i]);
                    assert forall|j: int| 0 <= j < i + 1 implies (
                    #[trigger] devices[j]).display_name != name by {
                        if j > 0 {
                            assert(devices[j] == rest[j - 1]);
                        }
                    }
                },
                None => {
                    assert forall|j: int| 0 <= j < devices.len() implies (
                    #[trigger] devices[j]).display_name != name by {
                        if j > 0 {
                            assert(devices[j] == rest[j - 1]);
                        }
                    }
                },
            }
        }
    }
}

/// Starting a capture leaves it running on the device, and touches neither the microphone nor the
/// stream; stopping it leaves nothing of it.
pub proof fn captures_start_and_stop(before: StateView, device: Seq<char>)
    ensures
        ({
            let after = before.capture_started(device);
            &&& after.capture_thread && after.capture_stop && after.pcm_rx
            &&& after.current_device == device
            &&& after.capture_stopped() == before.capture_stopped()
            &&& after.same_mic(before) && after.same_stream(before)
        }),
        ({
            let after = before.capture_stopped();
            &&& !after.capture_thread && !after.capture_stop && !after.pcm_rx
            &&& after.current_device.len() == 0
            &&& after.same_mic(before) && after.same_stream(before)
        }),
        ({
            let after = before.mic_started(device);
            &&& after.mic_capture_thread && after.mic_capture_stop && after.mic_rx
            &&& after.current_mic_device == device
            &&& after.mic_stopped() == before.mic_stopped()
            &&& after.same_capture(before) && after.same_stream(before)
        }),
        ({
            let after = before.mic_stopped();
            &&& !after.mic_capture_thread && !after.mic_capture_stop && !after.mic_rx
            &&& after.current_mic_device.len() == 0
            &&& after.same_capture(before) && after.same_stream(before)
        }),
{
}

impl StateView {
    /// Whether the capture of the music is the same.
    pub open spec fn same_capture(self, other: StateView) -> bool {
        &&& self.capture_thread == other.capture_thread
        &&& self.capture_stop == other.capture_stop
        &&& self.pcm_rx == other.pcm_rx
        &&& self.current_device == other.current_device
    }

    /// Whether the capture of the microphone, its button and its key are the same.
    pub open spec fn same_mic(self, other: StateView) -> bool {
        &&& self.mic_capture_thread == other.mic_capture_thread
        &&& self.mic_capture_stop == other.mic_capture_stop
        &&& self.mic_rx == other.mic_rx
        &&& self.current_mic_device == other.current_mic_device
        &&& self.is_mic_toggled == other.is_mic_toggled
        &&& self.ptt_stop == other.ptt_stop
    }

    /// Whether the stream is the same.
    pub open spec fn same_stream(self, other: StateView) -> bool {
        &&& self.is_streaming_flag == other.is_streaming_flag
        &&& self.is_streaming == other.is_streaming
        &&& self.stream_thread == other.stream_thread
        &&& self.stream_stop == other.stream_stop
        &&& self.timer_seconds == other.timer_seconds
    }
}

/// A stream that is started streams, from zero seconds on, and one that is stopped does not. Neither
/// touches what is captured.
pub proof fn streams_start_and_stop(before: StateView)
    ensures
        ({
            let after = before.stream_started();
            &&& after.is_streaming && after.is_streaming_flag && after.stream_thread
            &&& after.stream_stop && after.timer_seconds == 0
            &&& after.same_capture(before) && after.same_mic(before)
        }),
        ({
            let after = before.stream_stopped();
            &&& !after.is_streaming && !after.is_streaming_flag && !after.stream_thread
            &&& !after.stream_stop && after.timer_seconds == 0
            &&& after.same_capture(before) && after.same_mic(before)
        }),
{
}

/// A capture of the same kind that runs is told to stop, its recorder is ended and it is let go
/// before the new one starts, and the new one is of the device that was found.
pub proof fn the_old_capture_goes_first(before: StateView, serial: u32)
    ensures
        ({
            let effects = before.start_capture_effects(serial);
            &&& effects.last() == (Effect::StartCapture { worker: Worker::Capture, serial })
            &&& before.capture_stop ==> effects[0] == (Effect::Stop { worker: Worker::Capture })
            &&& effects.contains(Effect::Kill { worker: Worker::Capture })
            &&& effects.contains(Effect::Release { worker: Worker::Capture })
            &&& effects.len() == if before.capture_stop {
                4int
            } else {
                3
            }
        }),
        ({
            let effects = before.start_mic_effects(serial);
            &&& effects.last() == (Effect::StartCapture { worker: Worker::MicCapture, serial })
            &&& before.mic_capture_stop ==> effects[0] == (Effect::Stop {
                worker: Worker::MicCapture,
            })
            &&& effects.contains(Effect::Kill { worker: Worker::MicCapture })
            &&& effects.contains(Effect::Release { worker: Worker::MicCapture })
            &&& effects.len() == if before.mic_capture_stop {
                4int
            } else {
                3
            }
        }),
{
    let e = before.start_capture_effects(serial);
    assert(e[e.len() - 3] == (Effect::Kill { worker: Worker::Capture }));
    assert(e[e.len() - 2] == (Effect::Release { worker: Worker::Capture }));
    let m = before.start_mic_effects(serial);
    assert(m[m.len() - 3] == (Effect::Kill { worker: Worker::MicCapture }));
    assert(m[m.len() - 2] == (Effect::Release { worker: Worker::MicCapture }));
}

/// A key listener that runs is told to stop before the new one starts, and the microphone is closed
/// as far as the key goes.
pub proof fn the_old_listener_goes_first(before: StateView)
    ensures
        ({
            let effects = before.start_ptt_effects();
            &&& effects.last() == (Effect::Start { worker: Worker::Ptt })
            &&& before.ptt_stop ==> effects[0] == (Effect::Stop { worker: Worker::Ptt })
            &&& effects.contains(Effect::ClearMicPtt)
        }),
{
    let e = before.start_ptt_effects();
    assert(e[e.len() - 2] == Effect::ClearMicPtt);
}

/// A stream needs a host, a mount and a password, and it captures anew exactly where nothing is
/// captured or another device is set. After that capture it does not need another.
pub proof fn streams_need_server_and_device(before: StateView, config: ConfigView)
    ensures
        server_set(config) <==> config.host.len() > 0 && config.mount.len() > 0
            && config.password.len() > 0,
        !before.capture_thread ==> before.lacks_capture(config),
        before.capture_thread ==> (before.lacks_capture(config) <==> config.input_device
            != before.current_device),
        !before.capture_started(config.input_device).lacks_capture(config),
{
}

/// The settings ask for another capture exactly where a device is set that is not captured, and
/// never while streaming.
pub proof fn settings_ask_for_captures(before: StateView, config: ConfigView, found: Option<u32>)
    ensures
        before.wants_capture(config) <==> !before.is_streaming && config.input_device.len() > 0
            && config.input_device != before.current_device,
        before.wants_mic(config) <==> !before.is_streaming && config.mic_device.len() > 0
            && config.mic_device != before.current_mic_device,
        !before.is_streaming && config.input_device.len() > 0 && found is Some
            ==> before.capture_restarted(config, found).current_device == config.input_device,
        !before.is_streaming && (found is Some || config.mic_device.len() == 0)
            ==> before.mic_restarted(config, found).current_mic_device == config.mic_device,
        (found matches Some(serial) && before.wants_capture(config)) ==> {
            &&& before.restart_capture_effects(config, found).len() > 0
            &&& before.restart_capture_effects(config, found).last() == (Effect::StartCapture {
                worker: Worker::Capture,
                serial: found->Some_0,
            })
        },
        (found matches Some(serial) && before.wants_mic(config)) ==> {
            &&& before.restart_mic_effects(config, found).len() > 0
            &&& before.restart_mic_effects(config, found).last() == (Effect::StartCapture {
                worker: Worker::MicCapture,
                serial: found->Some_0,
            })
        },
{
    if config.mic_device.len() == 0 {
        assert(config.mic_device =~= Seq::empty());
    }
}

/// Stopping a stream first lets no more samples through, then stops it where it can be told to, lets
/// go of it and says so.
pub proof fn streams_are_stopped_in_order(before: StateView)
    ensures
        ({
            let effects = before.stop_streaming_effects();
            &&& effects[0] == (Effect::SetStreaming { on: false })
            &&& before.stream_stop ==> effects.len() == 4 && effects[1] == (Effect::Stop {
                worker: Worker::Stream,
            })
            &&& !before.stream_stop ==> effects.len() == 3
            &&& effects[effects.len() - 2] == (Effect::Release { worker: Worker::Stream })
            &&& effects.last() == Effect::SayStopped
        }),
{
}

/// Stopping a capture or the listener touches no other worker: a flag that is held is told to stop
/// first, a recorder is ended, and the worker is let go.
pub proof fn workers_are_stopped_in_order(before: StateView)
    ensures
        before.stop_capture_effects() == if before.capture_stop {
            seq![
                Effect::Stop { worker: Worker::Capture },
                Effect::Kill { worker: Worker::Capture },
                Effect::Release { worker: Worker::Capture },
            ]
        } else {
            seq![
                Effect::Kill { worker: Worker::Capture },
                Effect::Release { worker: Worker::Capture },
            ]
        },
        before.stop_mic_effects() == if before.mic_capture_stop {
            seq![
                Effect::Stop { worker: Worker::MicCapture },
                Effect::Kill { worker: Worker::MicCapture },
                Effect::Release { worker: Worker::MicCapture },
            ]
        } else {
            seq![
                Effect::Kill { worker: Worker::MicCapture },
                Effect::Release { worker: Worker::MicCapture },
            ]
        },
        before.stop_ptt_effects() == if before.ptt_stop {
            seq![
                Effect::Stop { worker: Worker::Ptt },
                Effect::Release { worker: Worker::Ptt },
                Effect::ClearMicPtt,
            ]
        } else {
            seq![Effect::Release { worker: Worker::Ptt }, Effect::ClearMicPtt]
        },
{
    assert(before.capture_stop ==> before.stop_capture_effects() =~= seq![
        Effect::Stop { worker: Worker::Capture },
        Effect::Kill { worker: Worker::Capture },
        Effect::Release { worker: Worker::Capture },
    ]);
    assert(!before.capture_stop ==> before.stop_capture_effects() =~= seq![
        Effect::Kill { worker: Worker::Capture },
        Effect::Release { worker: Worker::Capture },
    ]);
    assert(before.mic_capture_stop ==> before.stop_mic_effects() =~= seq![
        Effect::Stop { worker: Worker::MicCapture },
        Effect::Kill { worker: Worker::MicCapture },
        Effect::Release { worker: Worker::MicCapture },
    ]);
    assert(!before.mic_capture_stop ==> before.stop_mic_effects() =~= seq![
        Effect::Kill { worker: Worker::MicCapture },
        Effect::Release { worker: Worker::MicCapture },
    ]);
    assert(before.ptt_stop ==> before.stop_ptt_effects() =~= seq![
        Effect::Stop { worker: Worker::Ptt },
        Effect::Release { worker: Worker::Ptt },
        Effect::ClearMicPtt,
    ]);
    assert(!before.ptt_stop ==> before.stop_ptt_effects() =~= seq![
        Effect::Release { worker: Worker::Ptt },
        Effect::ClearMicPtt,
    ]);
}

/// The end of the program ends both recorders, tells no worker to stop whose flag is not held, and
/// keeps what else is noted.
pub proof fn shutdown_ends_recorders(before: StateView, worker: Worker)
    ensures
        ({
            let effects = before.shutdown_effects();
            let after = before.shut_down();
            &&& effects[0] == (Effect::SetStreaming { on: false })
            &&& effects.contains(Effect::Kill { worker: Worker::Capture })
            &&& effects.contains(Effect::Kill { worker: Worker::MicCapture })
            &&& effects.last() == (Effect::Stop { worker: Worker::Metadata })
            &&& effects.contains(Effect::Stop { worker }) ==> {
                ||| worker == Worker::Metadata
                ||| worker == Worker::Stream && before.stream_stop
                ||| worker == Worker::Capture && before.capture_stop
                ||| worker == Worker::MicCapture && before.mic_capture_stop
                ||| worker == Worker::Ptt && before.ptt_stop
            }
            &&& !after.is_streaming_flag
            &&& after.capture_thread == before.capture_thread
            &&& after.mic_capture_thread == before.mic_capture_thread
            &&& after.stream_thread == before.stream_thread
            &&& after.current_device == before.current_device
            &&& after.current_mic_device == before.current_mic_device
            &&& after.is_mic_toggled == before.is_mic_toggled
        }),
{
    let a = seq![Effect::SetStreaming { on: false }];
    let b = a + stop_if(before.stream_stop, Worker::Stream);
    let c = b + stop_if(before.capture_stop, Worker::Capture);
    let d = c + seq![Effect::Kill { worker: Worker::Capture }];
    let e = d + stop_if(before.mic_capture_stop, Worker::MicCapture);
    let f = e + seq![Effect::Kill { worker: Worker::MicCapture }];
    let g = f + stop_if(before.ptt_stop, Worker::Ptt);
    let h = g + seq![Effect::Stop { worker: Worker::Metadata }];
    assert(h == before.shutdown_effects());
    assert(h[c.len() as int] == (Effect::Kill { worker: Worker::Capture }));
    assert(h[e.len() as int] == (Effect::Kill { worker: Worker::MicCapture }));
}

/// What is said where no stream is started tells what is missing.
pub proof fn missing_things_are_named(e: StartError)
    ensures
        e is NotConfigured ==> start_error_text(e) == "Configure server in preferences"@,
        e is NoDevice ==> start_error_text(e) == "Select input device in preferences"@,
        e is NotReady ==> start_error_text(e) == "Capture not ready"@,
{
}

/// Where nothing runs there is nothing to stop, and nothing is captured, streamed or opened.
pub proof fn nothing_runs_at_first()
    ensures
        ({
            let s = idle_state();
            &&& s.capture_stopped() == s && s.mic_stopped() == s && s.stream_stopped() == s
            &&& s.shut_down() == s
            &&& !s.is_mic_toggled && !s.ptt_stop
        }),
{
}

} // verus!
