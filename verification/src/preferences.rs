//! The preferences window: what it shows of the settings, and the settings that it saves.
use vstd::prelude::*;
use vstd::array::array_as_slice;
use crate::config::{Codec, Config, ConfigView};
use crate::pipewire::{DeviceView, PwDevice};
use crate::pipewire::device_views;
use crate::ptt::{PTT_KEY_OPTIONS, PTT_MODIFIER_OPTIONS, split_combo};
use crate::ptt::{combo_parts, key_code, key_options_have_codes, modifier_codes};
use crate::ptt::{key_options_are_plain, modifier_options_have_codes};
use crate::samples::FloatBits;
use crate::text::{decimal_text, eq_ignore_case, parse_u16, same_text};
use crate::text::{ascii_lower, ascii_upper, decimal, decimal_reads_back, numeral_value};
use crate::text::{all_digits, digits_value, same_ignoring_case, split_at_first, unsigned_digits};

verus! {

/// The bitrates of Opus that are offered.
pub const OPUS_BITRATE_OPTIONS: [u32; 5] = [64, 96, 128, 192, 256];

/// What the window shows: texts, numbers of the sliders, and which of the options is selected.
#[derive(Debug)]
pub struct PreferenceForm {
    pub host: String,
    pub port: String,
    pub mount: String,
    pub password: String,
    pub device: usize,
    pub mic: Option<usize>,
    pub codec: u32,
    pub sample_rate: u32,
    pub channels: u32,
    pub vorbis_quality: FloatBits,
    pub bitrate: u32,
    pub modifier: u32,
    pub key: u32,
    pub duck_threshold: FloatBits,
    pub duck_level: FloatBits,
    pub attack: u32,
    pub release: u32,
    pub hold: u32,
}

/// The contents of a [`PreferenceForm`].
pub struct FormView {
    pub host: Seq<char>,
    pub port: Seq<char>,
    pub mount: Seq<char>,
    pub password: Seq<char>,
    pub device: nat,
    pub mic: Option<nat>,
    pub codec: u32,
    pub sample_rate: u32,
    pub channels: u32,
    pub vorbis_quality: FloatBits,
    pub bitrate: u32,
    pub modifier: u32,
    pub key: u32,
    pub duck_threshold: FloatBits,
    pub duck_level: FloatBits,
    pub attack: u32,
    pub release: u32,
    pub hold: u32,
}

impl View for PreferenceForm {
    type V = FormView;

    open spec fn view(&self) -> FormView {
        FormView {
            host: self.host@,
            port: self.port@,
            mount: self.mount@,
            password: self.password@,
            device: self.device as nat,
            mic: match self.mic {
                Some(i) => Some(i as nat),
                None => None,
            },
            codec: self.codec,
            sample_rate: self.sample_rate,
            channels: self.channels,
            vorbis_quality: self.vorbis_quality,
            bitrate: self.bitrate,
            modifier: self.modifier,
            key: self.key,
            duck_threshold: self.duck_threshold,
            duck_level: self.duck_level,
            attack: self.attack,
            release: self.release,
            hold: self.hold,
        }
    }
}

// Which option is selected.

/// Where a name first stands among options from `from` on, whatever its case.
pub open spec fn option_position(options: Seq<&'static str>, name: Seq<char>, from: int) -> Option<
    nat,
>
    decreases options.len() - from,
{
    if from < 0 || from >= options.len() {
        None
    } else if same_ignoring_case(options[from]@, name) {
        Some(from as nat)
    } else {
        option_position(options, name, from + 1)
    }
}

fn find_option(options: &[&'static str], name: &str) -> (r: Option<usize>)
    ensures
        (match r {
            Some(i) => option_position(options@, name@, 0) == Some(i as nat) && i < options@.len(),
            None => option_position(options@, name@, 0) is None,
        }),
{
    let n = options.len();
    let mut i: usize = 0;
    while i < n
        invariant
            i <= n,
            n == options@.len(),
            option_position(options@, name@, 0) == option_position(options@, name@, i as int),
        decreases n - i,
    {
        if eq_ignore_case(options[i], name) {
            return Some(i);
        }
        i = i + 1;
    }
    None
}

/// Where a number first stands among the bitrates from `from` on.
pub open spec fn bitrate_position(kbps: u32, from: int) -> Option<nat>
    decreases OPUS_BITRATE_OPTIONS@.len() - from,
{
    if from < 0 || from >= OPUS_BITRATE_OPTIONS@.len() {
        None
    } else if OPUS_BITRATE_OPTIONS@[from] == kbps {
        Some(from as nat)
    } else {
        bitrate_position(kbps, from + 1)
    }
}

fn find_bitrate(kbps: u32) -> (r: Option<usize>)
    ensures
        (match r {
            Some(i) => bitrate_position(kbps, 0) == Some(i as nat) && i < 5,
            None => bitrate_position(kbps, 0) is None,
        }),
{
    let options = OPUS_BITRATE_OPTIONS;
    let mut i: usize = 0;
    while i < 5
        invariant
            i <= 5,
            options == OPUS_BITRATE_OPTIONS,
            bitrate_position(kbps, 0) == bitrate_position(kbps, i as int),
        decreases 5 - i,
    {
        if options[i] == kbps {
            return Some(i);
        }
        i = i + 1;
    }
    None
}

/// Where the first device of a name stands from `from` on.
pub open spec fn device_position(
    devices: Seq<DeviceView>,
    name: Seq<char>,
    from: int,
) -> Option<nat>
    decreases devices.len() - from,
{
    if from < 0 || from >= devices.len() {
        None
    } else if devices[from].display_name == name {
        Some(from as nat)
    } else {
        device_position(devices, name, from + 1)
    }
}

fn find_position(devices: &Vec<PwDevice>, name: &str) -> (r: Option<usize>)
    ensures
        (match r {
            Some(i) => device_position(device_views(devices@), name@, 0) == Some(i as nat),
            None => device_position(device_views(devices@), name@, 0) is None,
        }),
{
    let ghost views = device_views(devices@);
    let n = devices.len();
    let mut i: usize = 0;
    while i < n
        invariant
            i <= n,
            n == devices@.len(),
            views == device_views(devices@),
            device_position(views, name@, 0) == device_position(views, name@, i as int),
        decreases n - i,
    {
        assert(views[i as int] == devices@[i as int]@);
        if same_text(devices[i].display_name.as_str(), name) {
            return Some(i);
        }
        i = i + 1;
    }
    None
}

pub open spec fn or_else(position: Option<nat>, other: nat) -> nat {
    match position {
        Some(i) => i,
        None => other,
    }
}

/// Which of three durations is selected: the second, unless it is the first or the third.
pub open spec fn duration_position(ms: u32, first: u32, third: u32) -> u32 {
    if ms == first {
        0
    } else if ms == third {
        2
    } else {
        1
    }
}

fn select_duration(ms: u32, first: u32, third: u32) -> (r: u32)
    ensures
        r == duration_position(ms, first, third),
{
    if ms == first {
        0
    } else if ms == third {
        2
    } else {
        1
    }
}

/// What the window shows of settings. The modifier is selected as "None" where the combination has
/// none; what is not among the options is shown as the first of them, a bitrate as the third.
pub open spec fn form_of(
    c: ConfigView,
    devices: Seq<DeviceView>,
    sources: Seq<DeviceView>,
) -> FormView {
    let (modifier, key) = combo_parts(c.ptt_key);
    FormView {
        host: c.host,
        port: decimal(c.port as nat),
        mount: c.mount,
        password: c.password,
        device: or_else(device_position(devices, c.input_device, 0), 0),
        mic: device_position(sources, c.mic_device, 0),
        codec: if c.codec == Codec::Opus {
            1
        } else {
            0
        },
        sample_rate: if c.sample_rate == 48000 {
            1
        } else {
            0
        },
        channels: if c.channels == 1 {
            0
        } else {
            1
        },
        vorbis_quality: c.vorbis_quality,
        bitrate: or_else(bitrate_position(c.opus_bitrate_kbps, 0), 2) as u32,
        modifier: or_else(
            option_position(
                PTT_MODIFIER_OPTIONS@,
                match modifier {
                    Some(m) => m,
                    None => "None"@,
                },
                0,
            ),
            0,
        ) as u32,
        key: or_else(option_position(PTT_KEY_OPTIONS@, key, 0), 0) as u32,
        duck_threshold: c.duck_threshold,
        duck_level: c.duck_level,
        attack: duration_position(c.duck_attack_ms, 50, 200),
        release: duration_position(c.duck_release_ms, 400, 1500),
        hold: duration_position(c.duck_hold_ms, 300, 1000),
    }
}

// What is saved.

/// The name of a device that is selected, or none.
pub open spec fn selected_name(devices: Seq<DeviceView>, selected: Option<nat>) -> Seq<char> {
    match selected {
        Some(i) => if i < devices.len() {
            devices[i as int].display_name
        } else {
            Seq::empty()
        },
        None => Seq::empty(),
    }
}

fn name_of(devices: &Vec<PwDevice>, selected: Option<usize>) -> (r: String)
    ensures
        r@ == selected_name(
            device_views(devices@),
            match selected {
                Some(i) => Some(i as nat),
                None => None,
            },
        ),
{
    match selected {
        Some(i) => if i < devices.len() {
            devices[i].display_name.clone()
        } else {
            String::new()
        },
        None => String::new(),
    }
}

/// The combination of a modifier and a key.
pub open spec fn combo_text(modifier: Seq<char>, key: Seq<char>) -> Seq<char> {
    if modifier == "None"@ {
        key
    } else {
        modifier + "+"@ + key
    }
}

/// The combination of the modifier and the key that are selected.
pub open spec fn selected_combo(modifier: u32, key: u32) -> Seq<char> {
    combo_text(
        if modifier < 5 {
            PTT_MODIFIER_OPTIONS@[modifier as int]@
        } else {
            "None"@
        },
        if key < 21 {
            PTT_KEY_OPTIONS@[key as int]@
        } else {
            "Space"@
        },
    )
}

fn combo_of(modifier: u32, key: u32) -> (r: String)
    ensures
        r@ == selected_combo(modifier, key),
{
    let modifiers = PTT_MODIFIER_OPTIONS;
    let keys = PTT_KEY_OPTIONS;
    let m = if modifier < 5 {
        modifiers[modifier as usize]
    } else {
        "None"
    };
    let k = if key < 21 {
        keys[key as usize]
    } else {
        "Space"
    };
    if same_text(m, "None") {
        k.to_string()
    } else {
        let mut out = String::new();
        out.append(m);
        out.append("+");
        out.append(k);
        assert(out@ =~= m@ + "+"@ + k@);
        out
    }
}

/// The duration that is selected of three.
pub open spec fn selected_duration(selected: u32, first: u32, second: u32, third: u32) -> u32 {
    if selected == 0 {
        first
    } else if selected == 1 {
        second
    } else {
        third
    }
}

fn duration_of(selected: u32, first: u32, second: u32, third: u32) -> (r: u32)
    ensures
        r == selected_duration(selected, first, second, third),
{
    if selected == 0 {
        first
    } else if selected == 1 {
        second
    } else {
        third
    }
}

/// The settings that the window saves. A port that is no number of a port is saved as 8000.
pub open spec fn saved_config(
    f: FormView,
    devices: Seq<DeviceView>,
    sources: Seq<DeviceView>,
) -> ConfigView {
    ConfigView {
        host: f.host,
        port: match numeral_value(f.port, u16::MAX as nat) {
            Some(p) => p as u16,
            None => 8000,
        },
        mount: f.mount,
        password: f.password,
        input_device: selected_name(devices, Some(f.device)),
        codec: if f.codec == 1 {
            Codec::Opus
        } else {
            Codec::Vorbis
        },
        sample_rate: if f.sample_rate == 1 {
            48000
        } else {
            44100
        },
        channels: if f.channels == 0 {
            1
        } else {
            2
        },
        vorbis_quality: f.vorbis_quality,
        opus_bitrate_kbps: if f.bitrate < 5 {
            OPUS_BITRATE_OPTIONS@[f.bitrate as int]
        } else {
            128
        },
        mic_device: selected_name(sources, f.mic),
        ptt_key: selected_combo(f.modifier, f.key),
        duck_threshold: f.duck_threshold,
        duck_level: f.duck_level,
        duck_attack_ms: selected_duration(f.attack, 50, 100, 200),
        duck_release_ms: selected_duration(f.release, 400, 800, 1500),
        duck_hold_ms: selected_duration(f.hold, 300, 500, 1000),
    }
}

impl PreferenceForm {
    /// What the window shows of settings when it is opened.
    pub fn open(config: &Config, devices: &Vec<PwDevice>, sources: &Vec<PwDevice>) -> (r: Self)
        ensures
            r@ == form_of(config@, device_views(devices@), device_views(sources@)),
    {
        let (modifier, key) = split_combo(config.ptt_key.as_str());
        let modifiers = PTT_MODIFIER_OPTIONS;
        let keys = PTT_KEY_OPTIONS;
        let modifier_name = match modifier {
            Some(m) => m,
            None => "None".to_string(),
        };
        let modifier_position = find_option(array_as_slice(&modifiers), modifier_name.as_str());
        let key_position = find_option(array_as_slice(&keys), key.as_str());
        PreferenceForm {
            host: config.host.clone(),
            port: decimal_text(config.port as u64),
            mount: config.mount.clone(),
            password: config.password.clone(),
            device: match find_position(devices, config.input_device.as_str()) {
                Some(i) => i,
                None => 0,
            },
            mic: find_position(sources, config.mic_device.as_str()),
            codec: match config.codec {
                Codec::Opus => 1,
                Codec::Vorbis => 0,
            },
            sample_rate: if config.sample_rate == 48000 {
                1
            } else {
                0
            },
            channels: if config.channels == 1 {
                0
            } else {
                1
            },
            vorbis_quality: config.vorbis_quality,
            bitrate: match find_bitrate(config.opus_bitrate_kbps) {
                Some(i) => i as u32,
                None => 2,
            },
            modifier: match modifier_position {
                Some(i) => i as u32,
                None => 0,
            },
            key: match key_position {
                Some(i) => i as u32,
                None => 0,
            },
            duck_threshold: config.duck_threshold,
            duck_level: config.duck_level,
            attack: select_duration(config.duck_attack_ms, 50, 200),
            release: select_duration(config.duck_release_ms, 400, 1500),
            hold: select_duration(config.duck_hold_ms, 300, 1000),
        }
    }

    /// The settings that are saved when the window is closed.
    pub fn config(&self, devices: &Vec<PwDevice>, sources: &Vec<PwDevice>) -> (r: Config)
        requires
            self.attack < 3,
            self.release < 3,
            self.hold < 3,
        ensures
            r@ == saved_config(self@, device_views(devices@), device_views(sources@)),
    {
        let bitrates = OPUS_BITRATE_OPTIONS;
        Config {
            host: self.host.clone(),
            port: match parse_u16(self.port.as_str()) {
                Some(p) => p,
                None => 8000,
            },
            mount: self.mount.clone(),
            password: self.password.clone(),
            input_device: name_of(devices, Some(self.device)),
            codec: if self.codec == 1 {
                Codec::Opus
            } else {
                Codec::Vorbis
            },
            sample_rate: if self.sample_rate == 1 {
                48000
            } else {
                44100
            },
            channels: if self.channels == 0 {
                1
            } else {
                2
            },
            vorbis_quality: self.vorbis_quality,
            opus_bitrate_kbps: if self.bitrate < 5 {
                bitrates[self.bitrate as usize]
            } else {
                128
            },
            mic_device: name_of(sources, self.mic),
            ptt_key: combo_of(self.modifier, self.key),
            duck_threshold: self.duck_threshold,
            duck_level: self.duck_level,
            duck_attack_ms: duration_of(self.attack, 50, 100, 200),
            duck_release_ms: duration_of(self.release, 400, 800, 1500),
            duck_hold_ms: duration_of(self.hold, 300, 500, 1000),
        }
    }
}

// What holds of opening and closing the window.

proof fn lemma_same_upper(a: Seq<char>, b: Seq<char>)
    requires
        same_ignoring_case(a, b),
    ensures
        a.map_values(|c: char| ascii_upper(c)) == b.map_values(|c: char| ascii_upper(c)),
{
    let lower = |c: char| ascii_lower(c);
    let upper = |c: char| ascii_upper(c);
    assert(a.map_values(lower).len() == b.map_values(lower).len());
    assert forall|i: int| 0 <= i < a.len() implies #[trigger] a.map_values(upper)[i]
        == b.map_values(upper)[i] by {
        assert(a.map_values(lower)[i] == b.map_values(lower)[i]);
    }
    assert(a.map_values(upper) =~= b.map_values(upper));
}

proof fn lemma_option_found(options: Seq<&'static str>, i: int, from: int)
    requires
        0 <= from <= i < options.len(),
        forall|k: int|
            0 <= k < i ==> !#[trigger] same_ignoring_case(options[k]@, options[i]@),
    ensures
        option_position(options, options[i]@, from) == Some(i as nat),
    decreases i - from,
{
    if from < i {
        lemma_option_found(options, i, from + 1);
    }
}

proof fn lemma_key_found(i: int)
    requires
        0 <= i < 21,
    ensures
        option_position(PTT_KEY_OPTIONS@, PTT_KEY_OPTIONS@[i]@, 0) == Some(i as nat),
{
    assert forall|k: int| 0 <= k < i implies !#[trigger] same_ignoring_case(
        PTT_KEY_OPTIONS@[k]@,
        PTT_KEY_OPTIONS@[i]@,
    ) by {
        key_options_have_codes(k);
        key_options_have_codes(i);
        if same_ignoring_case(PTT_KEY_OPTIONS@[k]@, PTT_KEY_OPTIONS@[i]@) {
            lemma_same_upper(PTT_KEY_OPTIONS@[k]@, PTT_KEY_OPTIONS@[i]@);
        }
    }
    lemma_option_found(PTT_KEY_OPTIONS@, i, 0);
}

proof fn lemma_modifier_found(i: int)
    requires
        0 <= i < 5,
    ensures
        option_position(PTT_MODIFIER_OPTIONS@, PTT_MODIFIER_OPTIONS@[i]@, 0) == Some(i as nat),
{
    assert forall|k: int| 0 <= k < i implies !#[trigger] same_ignoring_case(
        PTT_MODIFIER_OPTIONS@[k]@,
        PTT_MODIFIER_OPTIONS@[i]@,
    ) by {
        modifier_options_have_codes(k);
        modifier_options_have_codes(i);
        if same_ignoring_case(PTT_MODIFIER_OPTIONS@[k]@, PTT_MODIFIER_OPTIONS@[i]@) {
            lemma_same_upper(PTT_MODIFIER_OPTIONS@[k]@, PTT_MODIFIER_OPTIONS@[i]@);
        }
    }
    lemma_option_found(PTT_MODIFIER_OPTIONS@, i, 0);
}

proof fn lemma_key_has_no_plus(i: int)
    requires
        0 <= i < 21,
    ensures
        !PTT_KEY_OPTIONS@[i]@.contains('+'),
{
    key_options_are_plain(i);
}

proof fn lemma_modifier_has_no_plus(i: int)
    requires
        0 <= i < 5,
    ensures
        !PTT_MODIFIER_OPTIONS@[i]@.contains('+'),
        (PTT_MODIFIER_OPTIONS@[i]@ == "None"@) == (i == 0),
{
    reveal_strlit("None");
    assert("None"@[0] == 'N');
    if i == 0 {
        reveal_strlit("None");
    } else if i == 1 {
        reveal_strlit("Alt");
    } else if i == 2 {
        reveal_strlit("Ctrl");
    } else if i == 3 {
        reveal_strlit("Shift");
    } else if i == 4 {
        reveal_strlit("Super");
    }
}

proof fn lemma_combo_splits(modifier: Seq<char>, key: Seq<char>)
    requires
        !modifier.contains('+'),
        !key.contains('+'),
    ensures
        combo_parts(key) == (None::<Seq<char>>, key),
        combo_parts(modifier + "+"@ + key) == (Some(modifier), key),
{
    reveal_strlit("+");
    let combo = modifier + "+"@ + key;
    let n = modifier.len() as int;
    key.index_of_first_ensures('+');
    combo.index_of_first_ensures('+');
    assert(combo[n] == '+');
    assert forall|j: int| 0 <= j < n implies combo[j] != '+' by {
        assert(modifier.contains(modifier[j]));
    }
    assert(combo.contains('+'));
    assert(combo.index_of_first('+') == Some(n));
    assert(combo.take(n) =~= modifier);
    assert(combo.skip(n + 1) =~= key);
    assert(split_at_first(combo, '+') == Some((modifier, key)));
}

/// The modifier of a combination that the window saves.
pub open spec fn selected_modifier(modifier: u32) -> Option<Seq<char>> {
    if 0 < modifier < 5 {
        Some(PTT_MODIFIER_OPTIONS@[modifier as int]@)
    } else {
        None
    }
}

/// The key of a combination that the window saves.
pub open spec fn selected_key(key: u32) -> Seq<char> {
    if key < 21 {
        PTT_KEY_OPTIONS@[key as int]@
    } else {
        PTT_KEY_OPTIONS@[0]@
    }
}

/// Every combination that the window saves is taken apart into the modifier and the key that were
/// selected, and both have codes.
pub proof fn saved_combo_is_understood(modifier: u32, key: u32)
    ensures
        ({
            let (m, k) = combo_parts(selected_combo(modifier, key));
            &&& m == selected_modifier(modifier)
            &&& k == selected_key(key)
            &&& key_code(k.map_values(|c: char| ascii_upper(c))) is Some
            &&& m matches Some(name) ==> modifier_codes(
                name.map_values(|c: char| ascii_upper(c)),
            ) is Some
        }),
{
    let k = if key < 21 {
        key as int
    } else {
        0
    };
    let m = if modifier < 5 {
        modifier as int
    } else {
        0
    };
    lemma_key_has_no_plus(k);
    lemma_modifier_has_no_plus(m);
    lemma_combo_splits(PTT_MODIFIER_OPTIONS@[m]@, PTT_KEY_OPTIONS@[k]@);
    key_options_have_codes(k);
    modifier_options_have_codes(m);
}

proof fn lemma_device_found(devices: Seq<DeviceView>, name: Seq<char>, i: int, from: int)
    requires
        0 <= from <= i < devices.len(),
        devices[i].display_name == name,
    ensures
        device_position(devices, name, from) matches Some(p) && p < devices.len()
            && devices[p as int].display_name == name,
    decreases i - from,
{
    if devices[from].display_name != name {
        lemma_device_found(devices, name, i, from + 1);
    }
}

proof fn lemma_position_names(devices: Seq<DeviceView>, name: Seq<char>, from: int)
    requires
        0 <= from,
    ensures
        device_position(devices, name, from) matches Some(p) ==> p < devices.len()
            && devices[p as int].display_name == name,
    decreases devices.len() - from,
{
    if from < devices.len() {
        lemma_position_names(devices, name, from + 1);
    }
}

/// Whether a device of a name is listed.
pub open spec fn is_listed(devices: Seq<DeviceView>, name: Seq<char>) -> bool {
    exists|i: int| 0 <= i < devices.len() && (#[trigger] devices[i]).display_name == name
}

/// Whether a combination is one of those that the window offers.
pub open spec fn is_offered_combo(combo: Seq<char>) -> bool {
    exists|m: u32, k: u32| m < 5 && k < 21 && combo == #[trigger] selected_combo(m, k)
}

/// Whether the window offers all that is set.
pub open spec fn is_offered(
    c: ConfigView,
    devices: Seq<DeviceView>,
    sources: Seq<DeviceView>,
) -> bool {
    &&& is_listed(devices, c.input_device)
    &&& c.mic_device.len() == 0 || is_listed(sources, c.mic_device)
    &&& is_offered_combo(c.ptt_key)
    &&& c.sample_rate == 44100 || c.sample_rate == 48000
    &&& c.channels == 1 || c.channels == 2
    &&& OPUS_BITRATE_OPTIONS@.contains(c.opus_bitrate_kbps)
    &&& c.duck_attack_ms == 50 || c.duck_attack_ms == 100 || c.duck_attack_ms == 200
    &&& c.duck_release_ms == 400 || c.duck_release_ms == 800 || c.duck_release_ms == 1500
    &&& c.duck_hold_ms == 300 || c.duck_hold_ms == 500 || c.duck_hold_ms == 1000
}

proof fn lemma_combo_kept(c: ConfigView, devices: Seq<DeviceView>, sources: Seq<DeviceView>)
    requires
        is_offered_combo(c.ptt_key),
    ensures
        selected_combo(
            form_of(c, devices, sources).modifier,
            form_of(c, devices, sources).key,
        ) == c.ptt_key,
{
    let (m, k) = choose|m: u32, k: u32|
        m < 5 && k < 21 && c.ptt_key == #[trigger] selected_combo(m, k);
    saved_combo_is_understood(m, k);
    lemma_key_found(k as int);
    lemma_modifier_found(m as int);
    lemma_modifier_has_no_plus(0);
}

proof fn lemma_port_kept(port: u16)
    ensures
        numeral_value(decimal(port as nat), u16::MAX as nat) == Some(port as nat),
{
    let s = decimal(port as nat);
    decimal_reads_back(port as nat);
    assert('0' <= s[0] <= '9');
    assert(unsigned_digits(s) == s);
}

/// Opening the window and closing it again keeps settings that it offers, whatever the rest of
/// them is.
pub proof fn closing_keeps_settings(
    c: ConfigView,
    devices: Seq<DeviceView>,
    sources: Seq<DeviceView>,
)
    requires
        is_offered(c, devices, sources),
    ensures
        saved_config(form_of(c, devices, sources), devices, sources) == c,
{
    let f = form_of(c, devices, sources);
    let d = choose|i: int|
        0 <= i < devices.len() && (#[trigger] devices[i]).display_name == c.input_device;
    lemma_device_found(devices, c.input_device, d, 0);
    lemma_position_names(sources, c.mic_device, 0);
    if c.mic_device.len() == 0 {
        assert(c.mic_device =~= Seq::empty());
    } else {
        let i = choose|i: int|
            0 <= i < sources.len() && (#[trigger] sources[i]).display_name == c.mic_device;
        lemma_device_found(sources, c.mic_device, i, 0);
    }
    lemma_combo_kept(c, devices, sources);
    lemma_port_kept(c.port);
    reveal_with_fuel(bitrate_position, 6);
    let b = choose|i: int| 0 <= i < 5 && OPUS_BITRATE_OPTIONS@[i] == c.opus_bitrate_kbps;
    assert(OPUS_BITRATE_OPTIONS@[b] == c.opus_bitrate_kbps);
    let s = saved_config(f, devices, sources);
    assert(s.opus_bitrate_kbps == c.opus_bitrate_kbps);
    assert(s.mic_device == c.mic_device);
    assert(s == c);
}

/// What the window saves is what is selected: each option stands for a value of its own, and what
/// is beyond the options for a fixed one.
pub proof fn selections_are_saved(f: FormView, devices: Seq<DeviceView>, sources: Seq<DeviceView>)
    ensures
        ({
            let c = saved_config(f, devices, sources);
            &&& c.codec == Codec::Opus <==> f.codec == 1
            &&& c.sample_rate == if f.sample_rate == 1 {
                48000u32
            } else {
                44100
            }
            &&& c.channels == if f.channels == 0 {
                1u16
            } else {
                2
            }
            &&& f.bitrate < 5 ==> c.opus_bitrate_kbps == seq![
                64u32,
                96,
                128,
                192,
                256,
            ][f.bitrate as int]
            &&& f.bitrate >= 5 ==> c.opus_bitrate_kbps == 128
            &&& f.attack < 3 ==> c.duck_attack_ms == seq![50u32, 100, 200][f.attack as int]
            &&& f.release < 3 ==> c.duck_release_ms == seq![400u32, 800, 1500][f.release as int]
            &&& f.hold < 3 ==> c.duck_hold_ms == seq![300u32, 500, 1000][f.hold as int]
        }),
{
}

/// What the window saves of its texts and sliders is what stands there, and a device that is
/// selected is saved by its name.
pub proof fn entries_are_saved(f: FormView, devices: Seq<DeviceView>, sources: Seq<DeviceView>)
    ensures
        ({
            let c = saved_config(f, devices, sources);
            &&& c.host == f.host && c.mount == f.mount && c.password == f.password
            &&& c.vorbis_quality == f.vorbis_quality
            &&& c.duck_threshold == f.duck_threshold && c.duck_level == f.duck_level
            &&& f.device < devices.len() ==> c.input_device == devices[f.device as int].display_name
            &&& f.device >= devices.len() ==> c.input_device.len() == 0
            &&& f.mic is None ==> c.mic_device.len() == 0
            &&& f.mic matches Some(i) ==> if i < sources.len() {
                c.mic_device == sources[i as int].display_name
            } else {
                c.mic_device.len() == 0
            }
        }),
{
}

/// A port is saved as the number that its text reads, and every number of a port can be saved. A
/// text that is none is saved as 8000.
pub proof fn ports_are_read(
    f: FormView,
    devices: Seq<DeviceView>,
    sources: Seq<DeviceView>,
    port: u16,
    i: int,
)
    ensures
        f.port == decimal(port as nat) ==> saved_config(f, devices, sources).port == port,
        f.port.len() == 0 ==> saved_config(f, devices, sources).port == 8000,
        0 < i < f.port.len() && !('0' <= f.port[i] <= '9') ==> saved_config(
            f,
            devices,
            sources,
        ).port == 8000,
{
    lemma_port_kept(port);
    if 0 < i < f.port.len() && !('0' <= f.port[i] <= '9') {
        let d = unsigned_digits(f.port);
        let j = i - (f.port.len() - d.len());
        assert(d[j] == f.port[i]);
        assert(!all_digits(d));
    }
}

/// The combination that is saved is the name of the key that is selected, with the name of the
/// modifier and a plus sign before it where one is selected. Beyond the options it is the first.
pub proof fn combinations_are_saved(modifier: u32, key: u32)
    ensures
        ({
            let k = if key < 21 {
                PTT_KEY_OPTIONS@[key as int]@
            } else {
                "Space"@
            };
            selected_combo(modifier, key) == if 1 <= modifier < 5 {
                PTT_MODIFIER_OPTIONS@[modifier as int]@ + seq!['+'] + k
            } else {
                k
            }
        }),
{
    reveal_strlit("+");
    assert("+"@ =~= seq!['+']);
    lemma_modifier_has_no_plus(
        if modifier < 5 {
            modifier as int
        } else {
            0
        },
    );
}

/// The window shows the numbers and the choices that are set.
pub proof fn settings_are_shown(c: ConfigView, devices: Seq<DeviceView>, sources: Seq<DeviceView>)
    ensures
        ({
            let f = form_of(c, devices, sources);
            &&& f.host == c.host && f.mount == c.mount && f.password == c.password
            &&& digits_value(f.port) == c.port && all_digits(f.port)
            &&& f.vorbis_quality == c.vorbis_quality
            &&& f.duck_threshold == c.duck_threshold && f.duck_level == c.duck_level
            &&& f.codec == 1 <==> c.codec == Codec::Opus
            &&& f.codec == 0 <==> c.codec == Codec::Vorbis
            &&& f.sample_rate == 1 <==> c.sample_rate == 48000
            &&& f.sample_rate == 0 <==> c.sample_rate != 48000
            &&& f.channels == 0 <==> c.channels == 1
            &&& f.channels == 1 <==> c.channels != 1
            &&& f.bitrate < 5
            &&& f.bitrate == 0 <==> c.opus_bitrate_kbps == 64
            &&& f.bitrate == 1 <==> c.opus_bitrate_kbps == 96
            &&& f.bitrate == 3 <==> c.opus_bitrate_kbps == 192
            &&& f.bitrate == 4 <==> c.opus_bitrate_kbps == 256
            &&& f.attack < 3 && f.release < 3 && f.hold < 3
            &&& f.attack == 0 <==> c.duck_attack_ms == 50
            &&& f.attack == 2 <==> c.duck_attack_ms == 200
            &&& f.release == 0 <==> c.duck_release_ms == 400
            &&& f.release == 2 <==> c.duck_release_ms == 1500
            &&& f.hold == 0 <==> c.duck_hold_ms == 300
            &&& f.hold == 2 <==> c.duck_hold_ms == 1000
        }),
{
    decimal_reads_back(c.port as nat);
    reveal_with_fuel(bitrate_position, 6);
}

proof fn lemma_first_position(devices: Seq<DeviceView>, name: Seq<char>, from: int)
    requires
        0 <= from,
    ensures
        (match device_position(devices, name, from) {
            Some(p) => from <= p < devices.len() && devices[p as int].display_name == name
                && forall|j: int| from <= j < p ==> (#[trigger] devices[j]).display_name != name,
            None => forall|j: int|
                from <= j < devices.len() ==> (#[trigger] devices[j]).display_name != name,
        }),
    decreases devices.len() - from,
{
    if from < devices.len() {
        lemma_first_position(devices, name, from + 1);
    }
}

/// The device that is selected is the first of the name that is set. Where there is none the first
/// device is selected, and no microphone.
pub proof fn set_devices_are_selected(
    c: ConfigView,
    devices: Seq<DeviceView>,
    sources: Seq<DeviceView>,
)
    ensures
        ({
            let f = form_of(c, devices, sources);
            &&& is_listed(devices, c.input_device) ==> f.device < devices.len()
                && devices[f.device as int].display_name == c.input_device
                && forall|j: int|
                0 <= j < f.device ==> (#[trigger] devices[j]).display_name != c.input_device
            &&& !is_listed(devices, c.input_device) ==> f.device == 0
            &&& f.mic is Some <==> is_listed(sources, c.mic_device)
            &&& f.mic matches Some(i) ==> i < sources.len() && sources[i as int].display_name
                == c.mic_device && forall|j: int|
                0 <= j < i ==> (#[trigger] sources[j]).display_name != c.mic_device
        }),
{
    lemma_first_position(devices, c.input_device, 0);
    lemma_first_position(sources, c.mic_device, 0);
}

proof fn lemma_first_option(options: Seq<&'static str>, name: Seq<char>, from: int)
    requires
        0 <= from,
    ensures
        (match option_position(options, name, from) {
            Some(p) => from <= p < options.len() && same_ignoring_case(options[p as int]@, name)
                && forall|j: int|
                from <= j < p ==> !same_ignoring_case((#[trigger] options[j])@, name),
            None => forall|j: int|
                from <= j < options.len() ==> !same_ignoring_case((#[trigger] options[j])@, name),
        }),
    decreases options.len() - from,
{
    if from < options.len() {
        lemma_first_option(options, name, from + 1);
    }
}

/// The modifier and the key that are selected are those of the combination that is set, whatever
/// the case of their names. A name that is not offered, and a modifier that is not there, selects
/// the first option.
pub proof fn set_combinations_are_selected(
    c: ConfigView,
    devices: Seq<DeviceView>,
    sources: Seq<DeviceView>,
)
    ensures
        ({
            let f = form_of(c, devices, sources);
            let (modifier, key) = combo_parts(c.ptt_key);
            &&& f.modifier < 5 && f.key < 21
            &&& modifier is None ==> f.modifier == 0
            &&& modifier matches Some(m) ==> {
                ||| same_ignoring_case(PTT_MODIFIER_OPTIONS@[f.modifier as int]@, m)
                ||| f.modifier == 0 && forall|j: int|
                    0 <= j < 5 ==> !same_ignoring_case((#[trigger] PTT_MODIFIER_OPTIONS@[j])@, m)
            }
            &&& {
                ||| same_ignoring_case(PTT_KEY_OPTIONS@[f.key as int]@, key)
                ||| f.key == 0 && forall|j: int|
                    0 <= j < 21 ==> !same_ignoring_case((#[trigger] PTT_KEY_OPTIONS@[j])@, key)
            }
        }),
{
    let (modifier, key) = combo_parts(c.ptt_key);
    lemma_modifier_found(0);
    assert(PTT_MODIFIER_OPTIONS@[0]@ == "None"@);
    if let Some(m) = modifier {
        lemma_first_option(PTT_MODIFIER_OPTIONS@, m, 0);
    }
    lemma_first_option(PTT_KEY_OPTIONS@, key, 0);
}

} // verus!
