use rump::config::{Codec, Config};
use rump::pipewire::PwDevice;
use rump::preferences::{PreferenceForm, OPUS_BITRATE_OPTIONS};
use rump::ptt::{evdev_binding, PTT_KEY_OPTIONS, PTT_MODIFIER_OPTIONS};
use rump::samples::FloatBits;

fn devices() -> Vec<PwDevice> {
    vec![
        PwDevice { serial: 1, display_name: "Monitor of A".to_string(), is_monitor: true },
        PwDevice { serial: 2, display_name: "Monitor of B".to_string(), is_monitor: true },
    ]
}

fn sources() -> Vec<PwDevice> {
    vec![PwDevice { serial: 3, display_name: "C (mic)".to_string(), is_monitor: false }]
}

fn settings() -> Config {
    let mut config = Config::default();
    config.input_device = "Monitor of B".to_string();
    config.mic_device = "C (mic)".to_string();
    config.password = "hackme".to_string();
    config
}

fn texts(c: &Config) -> [&str; 6] {
    [&c.host, &c.mount, &c.password, &c.input_device, &c.mic_device, &c.ptt_key]
}

fn same(a: &Config, b: &Config) -> bool {
    texts(a) == texts(b)
        && (a.port, a.codec, a.sample_rate, a.channels) == (b.port, b.codec, b.sample_rate, b.channels)
        && (a.vorbis_quality, a.opus_bitrate_kbps) == (b.vorbis_quality, b.opus_bitrate_kbps)
        && (a.duck_threshold, a.duck_level) == (b.duck_threshold, b.duck_level)
        && (a.duck_attack_ms, a.duck_release_ms, a.duck_hold_ms)
            == (b.duck_attack_ms, b.duck_release_ms, b.duck_hold_ms)
}

fn reopened(config: &Config) -> Config {
    PreferenceForm::open(config, &devices(), &sources()).config(&devices(), &sources())
}

#[test]
fn window_shows_the_settings() {
    let form = PreferenceForm::open(&settings(), &devices(), &sources());
    assert_eq!((form.host.as_str(), form.port.as_str()), ("localhost", "8001"));
    assert_eq!((form.mount.as_str(), form.password.as_str()), ("/angelo", "hackme"));
    assert_eq!((form.device, form.mic), (1, Some(0)));
    assert_eq!((form.codec, form.sample_rate, form.channels, form.bitrate), (0, 0, 1, 2));
    assert_eq!((form.modifier, form.key), (1, 0));
    assert_eq!((form.attack, form.release, form.hold), (1, 1, 1));
}

#[test]
fn window_shows_what_it_can_of_other_settings() {
    let mut config = settings();
    config.input_device = "gone".to_string();
    config.mic_device = String::new();
    config.codec = Codec::Opus;
    config.sample_rate = 96000;
    config.channels = 6;
    config.opus_bitrate_kbps = 100;
    config.ptt_key = "Ctrl+Alt+F1".to_string();
    config.duck_attack_ms = 200;
    config.duck_release_ms = 400;
    config.duck_hold_ms = 7;
    let form = PreferenceForm::open(&config, &devices(), &sources());
    assert_eq!((form.device, form.mic), (0, None));
    assert_eq!((form.codec, form.sample_rate, form.channels, form.bitrate), (1, 0, 1, 2));
    assert_eq!((form.modifier, form.key), (0, 0));
    assert_eq!((form.attack, form.release, form.hold), (2, 0, 1));
    config.ptt_key = "ctrl+PAGEDOWN".to_string();
    let form = PreferenceForm::open(&config, &devices(), &sources());
    assert_eq!((form.modifier, form.key), (2, 20));
}

#[test]
fn closing_keeps_the_settings() {
    let mut config = settings();
    assert!(same(&reopened(&config), &config));
    config.codec = Codec::Opus;
    config.sample_rate = 48000;
    config.channels = 1;
    config.mic_device = String::new();
    config.port = 65535;
    config.duck_attack_ms = 50;
    config.duck_release_ms = 1500;
    config.duck_hold_ms = 1000;
    config.duck_level = FloatBits(0.35f32.to_bits());
    for kbps in OPUS_BITRATE_OPTIONS {
        config.opus_bitrate_kbps = kbps;
        assert!(same(&reopened(&config), &config));
    }
}

#[test]
fn closing_keeps_every_combination() {
    let mut config = settings();
    for (m, modifier) in PTT_MODIFIER_OPTIONS.iter().enumerate() {
        for key in PTT_KEY_OPTIONS {
            config.ptt_key = if m == 0 { key.to_string() } else { format!("{modifier}+{key}") };
            assert_eq!(reopened(&config).ptt_key, config.ptt_key);
            let binding = evdev_binding(&config.ptt_key).unwrap();
            assert_eq!(binding.modifier.is_some(), m > 0);
        }
    }
}

#[test]
fn closing_saves_what_is_selected() {
    let mut form = PreferenceForm::open(&settings(), &devices(), &sources());
    form.port = "99999".to_string();
    form.device = 7;
    form.mic = Some(9);
    form.codec = 1;
    form.sample_rate = 1;
    form.channels = 0;
    form.bitrate = 9;
    form.modifier = 99;
    form.key = 99;
    form.attack = 0;
    form.release = 2;
    form.hold = 2;
    let config = form.config(&devices(), &sources());
    assert_eq!(config.port, 8000);
    assert!(config.input_device.is_empty() && config.mic_device.is_empty());
    assert_eq!((config.codec, config.sample_rate, config.channels), (Codec::Opus, 48000, 1));
    assert_eq!((config.opus_bitrate_kbps, config.ptt_key.as_str()), (128, "Space"));
    assert_eq!(
        (config.duck_attack_ms, config.duck_release_ms, config.duck_hold_ms),
        (50, 1500, 1000)
    );
    form.mic = None;
    form.bitrate = 4;
    form.modifier = 4;
    form.key = 13;
    let config = form.config(&devices(), &sources());
    assert_eq!((config.opus_bitrate_kbps, config.ptt_key.as_str()), (256, "Super+CapsLock"));
}

#[test]
fn closing_selects_a_device_where_none_was_set() {
    let mut config = settings();
    config.input_device = String::new();
    assert_eq!(reopened(&config).input_device, "Monitor of A");
}
