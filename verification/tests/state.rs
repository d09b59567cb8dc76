use rump::config::Config;
use rump::pipewire::PwDevice;
use rump::state::{
    connecting_text, find_device, is_mic_active, kill_target, AppState, Effect, StartError, Worker,
};
use rump::stream::TrackMetadata;
use rump::timers::{clock_text, mic_tooltip, now_playing, StreamEnd};

fn devices() -> Vec<PwDevice> {
    vec![
        PwDevice { serial: 40, display_name: "Monitor of A".to_string(), is_monitor: true },
        PwDevice { serial: 50, display_name: "B (mic)".to_string(), is_monitor: false },
        PwDevice { serial: 51, display_name: "B (mic)".to_string(), is_monitor: false },
    ]
}

fn settings() -> Config {
    let mut config = Config::default();
    config.password = "hackme".to_string();
    config.input_device = "Monitor of A".to_string();
    config.mic_device = "B (mic)".to_string();
    config
}

fn start_capture() -> Vec<Effect> {
    vec![
        Effect::Kill { worker: Worker::Capture },
        Effect::Release { worker: Worker::Capture },
        Effect::StartCapture { worker: Worker::Capture, serial: 40 },
    ]
}

fn start_stream() -> Vec<Effect> {
    vec![
        Effect::SayConnecting,
        Effect::SetStreaming { on: true },
        Effect::Start { worker: Worker::Stream },
    ]
}

#[test]
fn the_first_device_of_a_name_is_found() {
    assert_eq!(find_device(&devices(), "B (mic)"), Some(50));
    assert_eq!(find_device(&devices(), "C"), None);
}

#[test]
fn a_recorder_that_runs_is_ended() {
    assert_eq!(kill_target(0), None);
    assert_eq!(kill_target(1234), Some(1234));
    assert_eq!(kill_target(u32::MAX), Some(-1));
}

#[test]
fn a_stream_starts_its_capture_first() {
    let mut state = AppState::default();
    let config = settings();
    assert!(state.needs_devices(&config));
    let mut expected = start_capture();
    expected.extend(start_stream());
    assert_eq!(state.start_streaming(&config, &devices()), Ok(expected));
    assert!(state.is_streaming && state.is_streaming_flag && state.stream_stop);
    assert_eq!(state.current_device, "Monitor of A");
    assert_eq!(connecting_text(&config), "Connecting to localhost:8001/angelo");
}

#[test]
fn a_stream_uses_the_capture_that_runs() {
    let mut state = AppState::default();
    let config = settings();
    state.start_capture(40, &config);
    assert!(!state.needs_devices(&config));
    assert_eq!(state.start_streaming(&config, &Vec::new()), Ok(start_stream()));
}

#[test]
fn a_stream_replaces_the_capture_of_another_device() {
    let mut state = AppState::default();
    let mut config = settings();
    config.input_device = "B (mic)".to_string();
    state.start_capture(50, &config);
    config.input_device = "Monitor of A".to_string();
    assert!(state.needs_devices(&config));
    let effects = state.start_streaming(&config, &devices()).unwrap();
    assert_eq!(effects[0], Effect::Stop { worker: Worker::Capture });
    assert_eq!(effects[1..4], start_capture()[..]);
}

#[test]
fn a_stream_needs_a_server() {
    for missing in 0..3 {
        let mut state = AppState::default();
        let mut config = settings();
        match missing {
            0 => config.host = String::new(),
            1 => config.mount = String::new(),
            _ => config.password = String::new(),
        }
        assert!(!state.needs_devices(&config));
        assert_eq!(state.start_streaming(&config, &devices()), Err(StartError::NotConfigured));
        assert!(!state.is_streaming);
    }
    assert_eq!(StartError::NotConfigured.message(), "Configure server in preferences");
}

#[test]
fn a_stream_needs_a_device() {
    let mut state = AppState::default();
    assert_eq!(state.start_streaming(&settings(), &Vec::new()), Err(StartError::NoDevice));
    assert_eq!(StartError::NoDevice.message(), "Select input device in preferences");
}

#[test]
fn a_stream_needs_samples() {
    let mut state = AppState::default();
    let config = settings();
    state.start_capture(40, &config);
    state.pcm_rx = false;
    assert_eq!(state.start_streaming(&config, &devices()), Err(StartError::NotReady));
    assert_eq!(StartError::NotReady.message(), "Capture not ready");
}

#[test]
fn stopping_undoes_starting() {
    let mut state = AppState::default();
    let config = settings();
    state.start_capture(40, &config);
    state.start_streaming(&config, &devices()).unwrap();
    assert_eq!(state.tick().as_deref(), Some("00:00:01"));
    assert_eq!(
        state.stop_streaming(),
        vec![
            Effect::SetStreaming { on: false },
            Effect::Stop { worker: Worker::Stream },
            Effect::Release { worker: Worker::Stream },
            Effect::SayStopped,
        ]
    );
    assert!(!state.is_streaming && !state.is_streaming_flag && !state.stream_thread);
    assert!(state.capture_thread && state.pcm_rx && state.capture_stop);
    assert_eq!((state.timer_seconds, state.current_device.as_str()), (0, "Monitor of A"));
}

#[test]
fn captures_are_stopped() {
    let mut state = AppState::default();
    let config = settings();
    state.start_mic_capture(50, &config);
    assert_eq!(state.current_mic_device, "B (mic)");
    assert_eq!(
        state.stop_mic_capture(),
        vec![
            Effect::Stop { worker: Worker::MicCapture },
            Effect::Kill { worker: Worker::MicCapture },
            Effect::Release { worker: Worker::MicCapture },
        ]
    );
    assert!(state.current_mic_device.is_empty() && !state.mic_rx);
    assert_eq!(state.stop_capture(), start_capture()[..2]);
    state.start_ptt();
    assert_eq!(
        state.stop_ptt(),
        vec![
            Effect::Stop { worker: Worker::Ptt },
            Effect::Release { worker: Worker::Ptt },
            Effect::ClearMicPtt,
        ]
    );
}

#[test]
fn settings_that_are_in_force_start_nothing() {
    let mut state = AppState::default();
    let config = settings();
    assert!(state.wants_other_capture(&config));
    assert_eq!(state.restart_capture(&config, &devices()), start_capture());
    assert!(!state.wants_other_capture(&config));
    assert!(state.restart_capture(&config, &devices()).is_empty());
    assert!(state.wants_other_mic(&config));
    assert_eq!(
        state.restart_mic(&config, &devices()),
        vec![
            Effect::Kill { worker: Worker::MicCapture },
            Effect::Release { worker: Worker::MicCapture },
            Effect::StartCapture { worker: Worker::MicCapture, serial: 50 },
            Effect::Release { worker: Worker::Ptt },
            Effect::ClearMicPtt,
            Effect::Start { worker: Worker::Ptt },
        ]
    );
    assert!(!state.wants_other_mic(&config));
    assert_eq!(
        state.restart_mic(&config, &devices()),
        vec![
            Effect::Stop { worker: Worker::Ptt },
            Effect::Release { worker: Worker::Ptt },
            Effect::ClearMicPtt,
            Effect::Start { worker: Worker::Ptt },
        ]
    );
}

#[test]
fn a_microphone_that_is_no_longer_set_is_stopped() {
    let mut state = AppState::default();
    let mut config = settings();
    state.start_mic_capture(50, &config);
    config.mic_device = "gone".to_string();
    assert_eq!(state.restart_mic(&config, &devices()).len(), 3);
    assert!(state.mic_capture_thread);
    config.mic_device = String::new();
    state.restart_mic(&config, &devices());
    assert!(!state.mic_capture_thread);
    assert!(state.restart_capture(&config, &Vec::new()).is_empty());
}

#[test]
fn streaming_keeps_what_is_captured() {
    let mut state = AppState::default();
    let mut config = settings();
    state.start_streaming(&config, &devices()).unwrap();
    config.input_device = "B (mic)".to_string();
    assert!(!state.wants_other_capture(&config) && !state.wants_other_mic(&config));
    assert!(state.restart_capture(&config, &devices()).is_empty());
    assert!(state.restart_mic(&config, &devices()).is_empty());
    assert_eq!(state.current_device, "Monitor of A");
}

#[test]
fn the_program_starts_what_is_set() {
    let mut state = AppState::default();
    let effects = state.startup(&settings(), &devices(), &devices());
    assert_eq!(effects[..3], start_capture()[..]);
    assert_eq!(effects[5], Effect::StartCapture { worker: Worker::MicCapture, serial: 50 });
    assert_eq!(effects[8], Effect::Start { worker: Worker::Ptt });
    assert_eq!(effects[9], Effect::Start { worker: Worker::Metadata });
    assert_eq!(effects.len(), 10);

    let mut state = AppState::default();
    let effects = state.startup(&Config::default(), &devices(), &devices());
    assert_eq!(effects.len(), 4);
    assert!(!state.capture_thread && state.ptt_stop);
}

#[test]
fn the_end_stops_everything() {
    let mut state = AppState::default();
    let config = settings();
    state.startup(&config, &devices(), &devices());
    state.start_streaming(&config, &devices()).unwrap();
    let effects = state.shutdown();
    for worker in
        [Worker::Stream, Worker::Capture, Worker::MicCapture, Worker::Ptt, Worker::Metadata]
    {
        assert!(effects.contains(&Effect::Stop { worker }));
    }
    assert!(!state.stream_stop && !state.capture_stop && !state.mic_capture_stop);
    assert_eq!(
        AppState::default().shutdown(),
        vec![
            Effect::SetStreaming { on: false },
            Effect::Kill { worker: Worker::Capture },
            Effect::Kill { worker: Worker::MicCapture },
            Effect::Stop { worker: Worker::Metadata },
        ]
    );
}

#[test]
fn the_microphone_is_opened_by_button_or_key() {
    let mut state = AppState::default();
    assert_eq!(state.toggle_mic(), Effect::SetMicToggled { on: true });
    assert!(is_mic_active(state.is_mic_toggled, false));
    assert_eq!(state.toggle_mic(), Effect::SetMicToggled { on: false });
    assert!(is_mic_active(false, true) && !is_mic_active(false, false));
    assert_eq!(mic_tooltip(true), "Mic LIVE");
    assert_eq!(mic_tooltip(false), "Mic (click or hold PTT)");
}

fn streaming() -> AppState {
    let mut state = AppState::default();
    state.start_streaming(&settings(), &devices()).unwrap();
    state
}

#[test]
fn an_error_ends_the_stream() {
    let mut state = streaming();
    let said = state.check_stream(&Some("refused".to_string()), &Some(StreamEnd::Panicked));
    assert_eq!(said.as_deref(), Some("Error: refused"));
    assert!(!state.is_streaming && !state.is_streaming_flag && !state.stream_stop);
    assert!(state.stream_thread);
}

#[test]
fn the_end_of_its_thread_ends_the_stream() {
    let mut state = streaming();
    assert_eq!(state.check_stream(&None, &None), None);
    assert!(state.is_streaming);
    let said = state.check_stream(&None, &Some(StreamEnd::Failed("gone".to_string())));
    assert_eq!(said.as_deref(), Some("Error: gone"));
    assert!(!state.stream_thread);
    assert_eq!(state.check_stream(&Some("late".to_string()), &None), None);
    let said = streaming().check_stream(&None, &Some(StreamEnd::Panicked));
    assert_eq!(said.as_deref(), Some("Stream thread panicked"));
    let said = streaming().check_stream(&None, &Some(StreamEnd::Completed));
    assert_eq!(said.as_deref(), Some("Icecast Streaming Client"));
}

#[test]
fn the_clock_runs_while_streaming() {
    assert_eq!(AppState::default().tick(), None);
    let mut state = streaming();
    state.timer_seconds = 3599;
    assert_eq!(state.tick().as_deref(), Some("01:00:00"));
    assert_eq!(state.timer_seconds, 3600);
}

#[test]
fn the_clock_tells_the_time() {
    assert_eq!(clock_text(0), "00:00:00");
    assert_eq!(clock_text(86399), "23:59:59");
    assert_eq!(clock_text(u32::MAX), "1193046:28:15");
    let parts: Vec<u32> = clock_text(45296).split(':').map(|p| p.parse().unwrap()).collect();
    assert_eq!(parts[0] * 3600 + parts[1] * 60 + parts[2], 45296);
}

#[test]
fn labels_are_kept_where_nothing_is_known() {
    let mut meta = TrackMetadata::default();
    assert_eq!(now_playing(&meta), (None, None));
    meta.title = "Voyager".to_string();
    assert_eq!(now_playing(&meta), (Some("Voyager".to_string()), None));
    meta.artist = "Daft Punk".to_string();
    assert_eq!(now_playing(&meta).1.as_deref(), Some("Daft Punk"));
}
