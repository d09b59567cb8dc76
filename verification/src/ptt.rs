//! Push to talk: the key combination, the codes of its keys, and what is held.
use vstd::prelude::*;
use evdev::KeyCode;
use crate::text::{has_char, same_text, split_first};
use crate::text::{ascii_lower, ascii_upper, is_ascii_text, lowercase, split_at_first, uppercase};

verus! {

/// The modifiers that a combination can have.
pub const PTT_MODIFIER_OPTIONS: [&'static str; 5] = ["None", "Alt", "Ctrl", "Shift", "Super"];

/// The keys that a combination can have.
pub const PTT_KEY_OPTIONS: [&'static str; 21] = [
    "Space",
    "F1",
    "F2",
    "F3",
    "F4",
    "F5",
    "F6",
    "F7",
    "F8",
    "F9",
    "F10",
    "F11",
    "F12",
    "CapsLock",
    "ScrollLock",
    "Pause",
    "Insert",
    "Home",
    "End",
    "PageUp",
    "PageDown",
];

// Combinations.

/// The modifier and the key of a combination: the text before a plus sign and the text behind it,
/// where there is exactly one plus sign. Otherwise there is no modifier, and the key is the text
/// before the first plus sign, or all of it.
pub open spec fn combo_parts(combo: Seq<char>) -> (Option<Seq<char>>, Seq<char>) {
    match split_at_first(combo, '+') {
        None => (None, combo),
        Some((before, after)) => if after.contains('+') {
            (None, before)
        } else {
            (Some(before), after)
        },
    }
}

/// Splits a combination into its modifier and its key.
pub fn split_combo(combo: &str) -> (r: (Option<String>, String))
    ensures
        r.1@ == combo_parts(combo@).1,
        (match r.0 {
            Some(m) => combo_parts(combo@).0 == Some(m@),
            None => combo_parts(combo@).0 is None,
        }),
{
    match split_first(combo, '+') {
        None => (None, combo.to_string()),
        Some((before, after)) => if has_char(after.as_str(), '+') {
            (None, before)
        } else {
            (Some(before), after)
        },
    }
}

/// The trigger of a modifier and a key in lower case, as the portal writes it.
pub open spec fn trigger_text(modifier: Option<Seq<char>>, key: Seq<char>) -> Seq<char> {
    match modifier {
        Some(m) => "<"@ + m + ">"@ + key,
        None => key,
    }
}

/// The trigger of a modifier and a key in lower case, as the portal writes it.
pub fn xdg_trigger(modifier: &Option<String>, key: String) -> (r: String)
    ensures
        r@ == trigger_text(
            match *modifier {
                Some(m) => Some(m@),
                None => None,
            },
            key@,
        ),
{
    match modifier {
        Some(m) => {
            let mut out = String::new();
            out.append("<");
            out.append(m.as_str());
            out.append(">");
            out.append(key.as_str());
            assert(out@ =~= "<"@ + m@ + ">"@ + key@);
            out
        },
        None => key,
    }
}

/// The trigger of a combination, as the portal writes it: the modifier in angle brackets, the key
/// in lower case.
pub fn combo_to_xdg_trigger(combo: &str) -> (r: String)
    ensures
        ({
            let (modifier, key) = combo_parts(combo@);
            &&& r@ == trigger_text(modifier, lowercase(key))
            &&& is_ascii_text(key) ==> r@ == trigger_text(
                modifier,
                key.map_values(|c: char| ascii_lower(c)),
            )
        }),
{
    let (modifier, key) = split_combo(combo);
    let key_lower = key.as_str().to_lowercase();
    xdg_trigger(&modifier, key_lower)
}

// Key codes.

/// The constants `KEY_F1` to `KEY_F12` of the `evdev` crate, as its table of key codes gives them.
#[verifier::external_body]
fn function_key_codes() -> (r: [u16; 12])
    ensures
        r@ == seq![59u16, 60, 61, 62, 63, 64, 65, 66, 67, 68, 87, 88],
{
    [
        KeyCode::KEY_F1.0, KeyCode::KEY_F2.0, KeyCode::KEY_F3.0, KeyCode::KEY_F4.0,
        KeyCode::KEY_F5.0, KeyCode::KEY_F6.0, KeyCode::KEY_F7.0, KeyCode::KEY_F8.0,
        KeyCode::KEY_F9.0, KeyCode::KEY_F10.0, KeyCode::KEY_F11.0, KeyCode::KEY_F12.0,
    ]
}

/// The constants `KEY_SPACE`, `KEY_CAPSLOCK`, `KEY_SCROLLLOCK`, `KEY_PAUSE`, `KEY_INSERT`,
/// `KEY_HOME`, `KEY_END`, `KEY_PAGEUP` and `KEY_PAGEDOWN` of the `evdev` crate, as its table of key
/// codes gives them.
#[verifier::external_body]
fn other_key_codes() -> (r: [u16; 9])
    ensures
        r@ == seq![57u16, 58, 70, 119, 110, 102, 107, 104, 109],
{
    [
        KeyCode::KEY_SPACE.0, KeyCode::KEY_CAPSLOCK.0, KeyCode::KEY_SCROLLLOCK.0,
        KeyCode::KEY_PAUSE.0, KeyCode::KEY_INSERT.0, KeyCode::KEY_HOME.0,
        KeyCode::KEY_END.0, KeyCode::KEY_PAGEUP.0, KeyCode::KEY_PAGEDOWN.0,
    ]
}

/// The constants for the left and the right key `ALT`, `CTRL`, `SHIFT` and `META` of the `evdev`
/// crate, as its table of key codes gives them.
#[verifier::external_body]
fn modifier_key_codes() -> (r: [u16; 8])
    ensures
        r@ == seq![56u16, 100, 29, 97, 42, 54, 125, 126],
{
    [
        KeyCode::KEY_LEFTALT.0, KeyCode::KEY_RIGHTALT.0,
        KeyCode::KEY_LEFTCTRL.0, KeyCode::KEY_RIGHTCTRL.0,
        KeyCode::KEY_LEFTSHIFT.0, KeyCode::KEY_RIGHTSHIFT.0,
        KeyCode::KEY_LEFTMETA.0, KeyCode::KEY_RIGHTMETA.0,
    ]
}

/// The code of a key, by its name in upper case.
pub open spec fn key_code(upper: Seq<char>) -> Option<u16> {
    if upper == "SPACE"@ {
        Some(57)
    } else if upper == "F1"@ {
        Some(59)
    } else if upper == "F2"@ {
        Some(60)
    } else if upper == "F3"@ {
        Some(61)
    } else if upper == "F4"@ {
        Some(62)
    } else if upper == "F5"@ {
        Some(63)
    } else if upper == "F6"@ {
        Some(64)
    } else if upper == "F7"@ {
        Some(65)
    } else if upper == "F8"@ {
        Some(66)
    } else if upper == "F9"@ {
        Some(67)
    } else if upper == "F10"@ {
        Some(68)
    } else if upper == "F11"@ {
        Some(87)
    } else if upper == "F12"@ {
        Some(88)
    } else if upper == "CAPSLOCK"@ {
        Some(58)
    } else if upper == "SCROLLLOCK"@ {
        Some(70)
    } else if upper == "PAUSE"@ {
        Some(119)
    } else if upper == "INSERT"@ {
        Some(110)
    } else if upper == "HOME"@ {
        Some(102)
    } else if upper == "END"@ {
        Some(107)
    } else if upper == "PAGEUP"@ {
        Some(104)
    } else if upper == "PAGEDOWN"@ {
        Some(109)
    } else {
        None
    }
}

/// The codes of the left and the right key of a modifier, by its name in upper case.
pub open spec fn modifier_codes(upper: Seq<char>) -> Option<(u16, u16)> {
    if upper == "ALT"@ {
        Some((56, 100))
    } else if upper == "CTRL"@ || upper == "CONTROL"@ {
        Some((29, 97))
    } else if upper == "SHIFT"@ {
        Some((42, 54))
    } else if upper == "SUPER"@ || upper == "META"@ {
        Some((125, 126))
    } else {
        None
    }
}

/// The code of a key, by its name in upper case.
pub fn evdev_key(upper: &str) -> (r: Option<u16>)
    ensures
        r == key_code(upper@),
{
    let function_keys = function_key_codes();
    let other_keys = other_key_codes();
    if same_text(upper, "SPACE") {
        Some(other_keys[0])
    } else if same_text(upper, "F1") {
        Some(function_keys[0])
    } else if same_text(upper, "F2") {
        Some(function_keys[1])
    } else if same_text(upper, "F3") {
        Some(function_keys[2])
    } else if same_text(upper, "F4") {
        Some(function_keys[3])
    } else if same_text(upper, "F5") {
        Some(function_keys[4])
    } else if same_text(upper, "F6") {
        Some(function_keys[5])
    } else if same_text(upper, "F7") {
        Some(function_keys[6])
    } else if same_text(upper, "F8") {
        Some(function_keys[7])
    } else if same_text(upper, "F9") {
        Some(function_keys[8])
    } else if same_text(upper, "F10") {
        Some(function_keys[9])
    } else if same_text(upper, "F11") {
        Some(function_keys[10])
    } else if same_text(upper, "F12") {
        Some(function_keys[11])
    } else if same_text(upper, "CAPSLOCK") {
        Some(other_keys[1])
    } else if same_text(upper, "SCROLLLOCK") {
        Some(other_keys[2])
    } else if same_text(upper, "PAUSE") {
        Some(other_keys[3])
    } else if same_text(upper, "INSERT") {
        Some(other_keys[4])
    } else if same_text(upper, "HOME") {
        Some(other_keys[5])
    } else if same_text(upper, "END") {
        Some(other_keys[6])
    } else if same_text(upper, "PAGEUP") {
        Some(other_keys[7])
    } else if same_text(upper, "PAGEDOWN") {
        Some(other_keys[8])
    } else {
        None
    }
}

/// The codes of the left and the right key of a modifier, by its name in upper case.
pub fn evdev_modifier(upper: &str) -> (r: Option<(u16, u16)>)
    ensures
        r == modifier_codes(upper@),
{
    let codes = modifier_key_codes();
    if same_text(upper, "ALT") {
        Some((codes[0], codes[1]))
    } else if same_text(upper, "CTRL") || same_text(upper, "CONTROL") {
        Some((codes[2], codes[3]))
    } else if same_text(upper, "SHIFT") {
        Some((codes[4], codes[5]))
    } else if same_text(upper, "SUPER") || same_text(upper, "META") {
        Some((codes[6], codes[7]))
    } else {
        None
    }
}

/// The code of a key, by its name in any case.
pub fn parse_evdev_key(name: &str) -> (r: Option<u16>)
    ensures
        r == key_code(uppercase(name@)),
        is_ascii_text(name@) ==> r == key_code(name@.map_values(|c: char| ascii_upper(c))),
{
    let upper = name.to_uppercase();
    evdev_key(upper.as_str())
}

/// The codes of the left and the right key of a modifier, by its name in any case.
pub fn parse_evdev_modifier(name: &str) -> (r: Option<(u16, u16)>)
    ensures
        r == modifier_codes(uppercase(name@)),
        is_ascii_text(name@) ==> r == modifier_codes(name@.map_values(|c: char| ascii_upper(c))),
{
    let upper = name.to_uppercase();
    evdev_modifier(upper.as_str())
}

/// The keys that talk: the key itself, and the left and the right key of its modifier.
#[derive(Clone, Copy, Debug)]
pub struct Binding {
    pub target: u16,
    pub modifier: Option<(u16, u16)>,
}

/// The keys of a modifier and a key by their names in upper case. A modifier without a code does
/// not count.
pub open spec fn binding_of(modifier: Option<Seq<char>>, key: Seq<char>) -> Option<Binding> {
    match key_code(key) {
        Some(target) => Some(
            Binding {
                target,
                modifier: match modifier {
                    Some(m) => modifier_codes(m),
                    None => None,
                },
            },
        ),
        None => None,
    }
}

/// The upper case of a text that may be missing.
pub open spec fn option_uppercase(t: Option<Seq<char>>) -> Option<Seq<char>> {
    match t {
        Some(s) => Some(uppercase(s)),
        None => None,
    }
}

/// The upper case of an ASCII text that may be missing.
pub open spec fn option_ascii_upper(t: Option<Seq<char>>) -> Option<Seq<char>> {
    match t {
        Some(s) => Some(s.map_values(|c: char| ascii_upper(c))),
        None => None,
    }
}

/// Whether a text that may be missing is ASCII.
pub open spec fn option_is_ascii(t: Option<Seq<char>>) -> bool {
    match t {
        Some(s) => is_ascii_text(s),
        None => true,
    }
}

/// The keys of a combination, or a message where its key has no code.
pub fn evdev_binding(combo: &str) -> (r: Result<Binding, String>)
    ensures
        ({
            let (modifier, key) = combo_parts(combo@);
            match r {
                Ok(b) => binding_of(option_uppercase(modifier), uppercase(key)) == Some(b),
                Err(message) => binding_of(option_uppercase(modifier), uppercase(key)) is None
                    && message@ == "PTT: unknown key: "@ + key,
            }
        }),
        ({
            let (modifier, key) = combo_parts(combo@);
            option_is_ascii(modifier) && is_ascii_text(key) ==> binding_of(
                option_ascii_upper(modifier),
                key.map_values(|c: char| ascii_upper(c)),
            ) == (match r {
                Ok(b) => Some(b),
                Err(_) => None,
            })
        }),
        forall|i: int, k: int|
            1 <= i < 5 && 0 <= k < 21 && combo@ == #[trigger] option_combo(i, k) ==> (
            r matches Ok(b) && b.target == key_option_codes()[k] && b.modifier == Some(
                seq![(56u16, 100u16), (29, 97), (42, 54), (125, 126)][i - 1],
            )),
        forall|k: int|
            0 <= k < 21 && combo@ == (#[trigger] PTT_KEY_OPTIONS@[k])@ ==> (r matches Ok(b)
                && b.target == key_option_codes()[k] && b.modifier is None),
{
    proof {
        assert forall|i: int, k: int|
            1 <= i < 5 && 0 <= k < 21 && combo@ == #[trigger] option_combo(i, k) implies (
        option_is_ascii(combo_parts(combo@).0) && is_ascii_text(combo_parts(combo@).1) && (
        binding_of(
            option_ascii_upper(combo_parts(combo@).0),
            combo_parts(combo@).1.map_values(|c: char| ascii_upper(c)),
        ) matches Some(b) && b.target == key_option_codes()[k] && b.modifier == Some(
            seq![(56u16, 100u16), (29, 97), (42, 54), (125, 126)][i - 1],
        ))) by {
            offered_combinations_are_bound(i, k);
        }
        assert forall|k: int| 0 <= k < 21 && combo@ == (#[trigger] PTT_KEY_OPTIONS@[k])@ implies (
        option_is_ascii(combo_parts(combo@).0) && is_ascii_text(combo_parts(combo@).1) && (
        binding_of(
            option_ascii_upper(combo_parts(combo@).0),
            combo_parts(combo@).1.map_values(|c: char| ascii_upper(c)),
        ) matches Some(b) && b.target == key_option_codes()[k] && b.modifier is None)) by {
            offered_combinations_are_bound(1, k);
        }
    }
    let (modifier_name, key_name) = split_combo(combo);
    let modifier = match &modifier_name {
        Some(m) => parse_evdev_modifier(m.as_str()),
        None => None,
    };
    match parse_evdev_key(key_name.as_str()) {
        Some(target) => Ok(Binding { target, modifier }),
        None => {
            let mut message = String::new();
            message.append("PTT: unknown key: ");
            message.append(key_name.as_str());
            assert(message@ =~= "PTT: unknown key: "@ + key_name@);
            Err(message)
        },
    }
}

/// The codes of the keys that a combination can have.
pub open spec fn key_option_codes() -> Seq<u16> {
    seq![
        57u16,
        59,
        60,
        61,
        62,
        63,
        64,
        65,
        66,
        67,
        68,
        87,
        88,
        58,
        70,
        119,
        110,
        102,
        107,
        104,
        109,
    ]
}

/// Every key that a combination can have has a code, and no two have the same.
pub proof fn key_options_have_codes(i: int)
    requires
        0 <= i < 21,
    ensures
        key_code(PTT_KEY_OPTIONS@[i]@.map_values(|c: char| ascii_upper(c))) == Some(
            key_option_codes()[i],
        ),
        forall|j: int| 0 <= j < 21 && j != i ==> key_option_codes()[j] != key_option_codes()[i],
{
    let upper = |c: char| ascii_upper(c);
    reveal_strlit("SPACE");
    assert("SPACE"@.len() == 5 && "SPACE"@[0] == 'S' && "SPACE"@[4] == 'E');
    reveal_strlit("F1");
    assert("F1"@.len() == 2 && "F1"@[0] == 'F' && "F1"@[1] == '1');
    reveal_strlit("F2");
    assert("F2"@.len() == 2 && "F2"@[0] == 'F' && "F2"@[1] == '2');
    reveal_strlit("F3");
    assert("F3"@.len() == 2 && "F3"@[0] == 'F' && "F3"@[1] == '3');
    reveal_strlit("F4");
    assert("F4"@.len() == 2 && "F4"@[0] == 'F' && "F4"@[1] == '4');
    reveal_strlit("F5");
    assert("F5"@.len() == 2 && "F5"@[0] == 'F' && "F5"@[1] == '5');
    reveal_strlit("F6");
    assert("F6"@.len() == 2 && "F6"@[0] == 'F' && "F6"@[1] == '6');
    reveal_strlit("F7");
    assert("F7"@.len() == 2 && "F7"@[0] == 'F' && "F7"@[1] == '7');
    reveal_strlit("F8");
    assert("F8"@.len() == 2 && "F8"@[0] == 'F' && "F8"@[1] == '8');
    reveal_strlit("F9");
    assert("F9"@.len() == 2 && "F9"@[0] == 'F' && "F9"@[1] == '9');
    reveal_strlit("F10");
    assert("F10"@.len() == 3 && "F10"@[0] == 'F' && "F10"@[2] == '0');
    reveal_strlit("F11");
    assert("F11"@.len() == 3 && "F11"@[0] == 'F' && "F11"@[2] == '1');
    reveal_strlit("F12");
    assert("F12"@.len() == 3 && "F12"@[0] == 'F' && "F12"@[2] == '2');
    reveal_strlit("CAPSLOCK");
    assert("CAPSLOCK"@.len() == 8 && "CAPSLOCK"@[0] == 'C' && "CAPSLOCK"@[7] == 'K');
    reveal_strlit("SCROLLLOCK");
    assert("SCROLLLOCK"@.len() == 10 && "SCROLLLOCK"@[0] == 'S' && "SCROLLLOCK"@[9] == 'K');
    reveal_strlit("PAUSE");
    assert("PAUSE"@.len() == 5 && "PAUSE"@[0] == 'P' && "PAUSE"@[4] == 'E');
    reveal_strlit("INSERT");
    assert("INSERT"@.len() == 6 && "INSERT"@[0] == 'I' && "INSERT"@[5] == 'T');
    reveal_strlit("HOME");
    assert("HOME"@.len() == 4 && "HOME"@[0] == 'H' && "HOME"@[3] == 'E');
    reveal_strlit("END");
    assert("END"@.len() == 3 && "END"@[0] == 'E' && "END"@[2] == 'D');
    reveal_strlit("PAGEUP");
    assert("PAGEUP"@.len() == 6 && "PAGEUP"@[0] == 'P' && "PAGEUP"@[5] == 'P');
    reveal_strlit("PAGEDOWN");
    assert("PAGEDOWN"@.len() == 8 && "PAGEDOWN"@[0] == 'P' && "PAGEDOWN"@[7] == 'N');
    if i == 0 {
        reveal_strlit("Space");
        assert("Space"@.map_values(upper) =~= "SPACE"@);
    } else if i == 1 {
        assert("F1"@.map_values(upper) =~= "F1"@);
    } else if i == 2 {
        assert("F2"@.map_values(upper) =~= "F2"@);
    } else if i == 3 {
        assert("F3"@.map_values(upper) =~= "F3"@);
    } else if i == 4 {
        assert("F4"@.map_values(upper) =~= "F4"@);
    } else if i == 5 {
        assert("F5"@.map_values(upper) =~= "F5"@);
    } else if i == 6 {
        assert("F6"@.map_values(upper) =~= "F6"@);
    } else if i == 7 {
        assert("F7"@.map_values(upper) =~= "F7"@);
    } else if i == 8 {
        assert("F8"@.map_values(upper) =~= "F8"@);
    } else if i == 9 {
        assert("F9"@.map_values(upper) =~= "F9"@);
    } else if i == 10 {
        assert("F10"@.map_values(upper) =~= "F10"@);
    } else if i == 11 {
        assert("F11"@.map_values(upper) =~= "F11"@);
    } else if i == 12 {
        assert("F12"@.map_values(upper) =~= "F12"@);
    } else if i == 13 {
        reveal_strlit("CapsLock");
        assert("CapsLock"@.map_values(upper) =~= "CAPSLOCK"@);
    } else if i == 14 {
        reveal_strlit("ScrollLock");
        assert("ScrollLock"@.map_values(upper) =~= "SCROLLLOCK"@);
    } else if i == 15 {
        reveal_strlit("Pause");
        assert("Pause"@.map_values(upper) =~= "PAUSE"@);
    } else if i == 16 {
        reveal_strlit("Insert");
        assert("Insert"@.map_values(upper) =~= "INSERT"@);
    } else if i == 17 {
        reveal_strlit("Home");
        assert("Home"@.map_values(upper) =~= "HOME"@);
    } else if i == 18 {
        reveal_strlit("End");
        assert("End"@.map_values(upper) =~= "END"@);
    } else if i == 19 {
        reveal_strlit("PageUp");
        assert("PageUp"@.map_values(upper) =~= "PAGEUP"@);
    } else if i == 20 {
        reveal_strlit("PageDown");
        assert("PageDown"@.map_values(upper) =~= "PAGEDOWN"@);
    }
}

/// Every modifier that a combination can have, but "None", has codes, and no two have the same.
pub proof fn modifier_options_have_codes(i: int)
    requires
        0 <= i < 5,
    ensures
        modifier_codes(PTT_MODIFIER_OPTIONS@[i]@.map_values(|c: char| ascii_upper(c))) == (
        seq![None, Some((56u16, 100u16)), Some((29, 97)), Some((42, 54)), Some((125, 126))])[i],
{
    let upper = |c: char| ascii_upper(c);
    reveal_strlit("NONE");
    assert("NONE"@.len() == 4 && "NONE"@[0] == 'N' && "NONE"@[3] == 'E');
    reveal_strlit("ALT");
    assert("ALT"@.len() == 3 && "ALT"@[0] == 'A' && "ALT"@[2] == 'T');
    reveal_strlit("CTRL");
    assert("CTRL"@.len() == 4 && "CTRL"@[0] == 'C' && "CTRL"@[3] == 'L');
    reveal_strlit("CONTROL");
    assert("CONTROL"@.len() == 7 && "CONTROL"@[0] == 'C' && "CONTROL"@[6] == 'L');
    reveal_strlit("SHIFT");
    assert("SHIFT"@.len() == 5 && "SHIFT"@[0] == 'S' && "SHIFT"@[4] == 'T');
    reveal_strlit("SUPER");
    assert("SUPER"@.len() == 5 && "SUPER"@[0] == 'S' && "SUPER"@[4] == 'R');
    reveal_strlit("META");
    assert("META"@.len() == 4 && "META"@[0] == 'M' && "META"@[3] == 'A');
    if i == 0 {
        reveal_strlit("None");
        assert("None"@.map_values(upper) =~= "NONE"@);
    } else if i == 1 {
        reveal_strlit("Alt");
        assert("Alt"@.map_values(upper) =~= "ALT"@);
    } else if i == 2 {
        reveal_strlit("Ctrl");
        assert("Ctrl"@.map_values(upper) =~= "CTRL"@);
    } else if i == 3 {
        reveal_strlit("Shift");
        assert("Shift"@.map_values(upper) =~= "SHIFT"@);
    } else if i == 4 {
        reveal_strlit("Super");
        assert("Super"@.map_values(upper) =~= "SUPER"@);
    }
}

/// The names of the keys are ASCII and hold no plus sign.
pub proof fn key_options_are_plain(i: int)
    requires
        0 <= i < 21,
    ensures
        is_ascii_text(PTT_KEY_OPTIONS@[i]@),
        !PTT_KEY_OPTIONS@[i]@.contains('+'),
{
    if i == 0 {
        reveal_strlit("Space");
    } else if i == 1 {
        reveal_strlit("F1");
    } else if i == 2 {
        reveal_strlit("F2");
    } else if i == 3 {
        reveal_strlit("F3");
    } else if i == 4 {
        reveal_strlit("F4");
    } else if i == 5 {
        reveal_strlit("F5");
    } else if i == 6 {
        reveal_strlit("F6");
    } else if i == 7 {
        reveal_strlit("F7");
    } else if i == 8 {
        reveal_strlit("F8");
    } else if i == 9 {
        reveal_strlit("F9");
    } else if i == 10 {
        reveal_strlit("F10");
    } else if i == 11 {
        reveal_strlit("F11");
    } else if i == 12 {
        reveal_strlit("F12");
    } else if i == 13 {
        reveal_strlit("CapsLock");
    } else if i == 14 {
        reveal_strlit("ScrollLock");
    } else if i == 15 {
        reveal_strlit("Pause");
    } else if i == 16 {
        reveal_strlit("Insert");
    } else if i == 17 {
        reveal_strlit("Home");
    } else if i == 18 {
        reveal_strlit("End");
    } else if i == 19 {
        reveal_strlit("PageUp");
    } else if i == 20 {
        reveal_strlit("PageDown");
    }
}

/// The names of the modifiers are ASCII and hold no plus sign.
pub proof fn modifier_options_are_plain(i: int)
    requires
        0 <= i < 5,
    ensures
        is_ascii_text(PTT_MODIFIER_OPTIONS@[i]@),
        !PTT_MODIFIER_OPTIONS@[i]@.contains('+'),
{
    if i == 0 {
        reveal_strlit("None");
    } else if i == 1 {
        reveal_strlit("Alt");
    } else if i == 2 {
        reveal_strlit("Ctrl");
    } else if i == 3 {
        reveal_strlit("Shift");
    } else if i == 4 {
        reveal_strlit("Super");
    }
}

/// A combination is a modifier, a plus sign and a key, or a key alone. Of more than two parts the
/// first is the key, and there is no modifier.
pub proof fn combinations_have_two_parts(first: Seq<char>, second: Seq<char>, rest: Seq<char>)
    requires
        !first.contains('+'),
        !second.contains('+'),
    ensures
        combo_parts(first) == (None::<Seq<char>>, first),
        combo_parts(first + seq!['+'] + second) == (Some(first), second),
        combo_parts(first + seq!['+'] + second + seq!['+'] + rest) == (None::<Seq<char>>, first),
{
    let n = first.len() as int;
    first.index_of_first_ensures('+');
    assert forall|tail: Seq<char>| #[trigger]
        split_at_first(first + (seq!['+'] + tail), '+') == Some((first, tail)) by {
        let combo = first + (seq!['+'] + tail);
        combo.index_of_first_ensures('+');
        assert(combo[n] == '+');
        assert forall|j: int| 0 <= j < n implies combo[j] != '+' by {
            assert(first.contains(first[j]));
        }
        assert(combo.contains('+'));
        assert(combo.index_of_first('+') == Some(n));
        assert(combo.take(n) =~= first);
        assert(combo.skip(n + 1) =~= tail);
    }
    assert(first + seq!['+'] + second =~= first + (seq!['+'] + second));
    let behind = second + seq!['+'] + rest;
    assert(first + seq!['+'] + second + seq!['+'] + rest =~= first + (seq!['+'] + behind));
    assert(behind[second.len() as int] == '+');
    assert(split_at_first(first + (seq!['+'] + second), '+') == Some((first, second)));
    assert(split_at_first(first + (seq!['+'] + behind), '+') == Some((first, behind)));
}

/// A trigger is the modifier in angle brackets and the key behind it, or the key alone.
pub proof fn triggers_hold_both_parts(modifier: Seq<char>, key: Seq<char>)
    ensures
        trigger_text(None, key) == key,
        trigger_text(Some(modifier), key) == seq!['<'] + modifier + seq!['>'] + key,
{
    reveal_strlit("<");
    reveal_strlit(">");
    assert("<"@ =~= seq!['<']);
    assert(">"@ =~= seq!['>']);
}

/// Only the names of the keys that a combination can have, in upper case, are names of keys, and
/// each has its own code.
pub proof fn only_offered_keys_have_codes(upper: Seq<char>)
    ensures
        key_code(upper) matches Some(code) ==> exists|i: int|
            0 <= i < 21 && upper == (#[trigger] PTT_KEY_OPTIONS@[i])@.map_values(
                |c: char| ascii_upper(c),
            ) && code == key_option_codes()[i],
{
    let to_upper = |c: char| ascii_upper(c);
    if key_code(upper) is Some {
        assert forall|i: int| 0 <= i < 21 implies key_code(
            (#[trigger] PTT_KEY_OPTIONS@[i])@.map_values(to_upper),
        ) == Some(key_option_codes()[i]) by {
            key_options_have_codes(i);
        }
        if upper == "SPACE"@ {
            reveal_strlit("Space");
            reveal_strlit("SPACE");
            assert(PTT_KEY_OPTIONS@[0]@.map_values(to_upper) =~= upper);
        } else if upper == "F1"@ {
            reveal_strlit("F1");
            assert(PTT_KEY_OPTIONS@[1]@.map_values(to_upper) =~= upper);
        } else if upper == "F2"@ {
            reveal_strlit("F2");
            assert(PTT_KEY_OPTIONS@[2]@.map_values(to_upper) =~= upper);
        } else if upper == "F3"@ {
            reveal_strlit("F3");
            assert(PTT_KEY_OPTIONS@[3]@.map_values(to_upper) =~= upper);
        } else if upper == "F4"@ {
            reveal_strlit("F4");
            assert(PTT_KEY_OPTIONS@[4]@.map_values(to_upper) =~= upper);
        } else if upper == "F5"@ {
            reveal_strlit("F5");
            assert(PTT_KEY_OPTIONS@[5]@.map_values(to_upper) =~= upper);
        } else if upper == "F6"@ {
            reveal_strlit("F6");
            assert(PTT_KEY_OPTIONS@[6]@.map_values(to_upper) =~= upper);
        } else if upper == "F7"@ {
            reveal_strlit("F7");
            assert(PTT_KEY_OPTIONS@[7]@.map_values(to_upper) =~= upper);
        } else if upper == "F8"@ {
            reveal_strlit("F8");
            assert(PTT_KEY_OPTIONS@[8]@.map_values(to_upper) =~= upper);
        } else if upper == "F9"@ {
            reveal_strlit("F9");
            assert(PTT_KEY_OPTIONS@[9]@.map_values(to_upper) =~= upper);
        } else if upper == "F10"@ {
            reveal_strlit("F10");
            assert(PTT_KEY_OPTIONS@[10]@.map_values(to_upper) =~= upper);
        } else if upper == "F11"@ {
            reveal_strlit("F11");
            assert(PTT_KEY_OPTIONS@[11]@.map_values(to_upper) =~= upper);
        } else if upper == "F12"@ {
            reveal_strlit("F12");
            assert(PTT_KEY_OPTIONS@[12]@.map_values(to_upper) =~= upper);
        } else if upper == "CAPSLOCK"@ {
            reveal_strlit("CapsLock");
            reveal_strlit("CAPSLOCK");
            assert(PTT_KEY_OPTIONS@[13]@.map_values(to_upper) =~= upper);
        } else if upper == "SCROLLLOCK"@ {
            reveal_strlit("ScrollLock");
            reveal_strlit("SCROLLLOCK");
            assert(PTT_KEY_OPTIONS@[14]@.map_values(to_upper) =~= upper);
        } else if upper == "PAUSE"@ {
            reveal_strlit("Pause");
            reveal_strlit("PAUSE");
            assert(PTT_KEY_OPTIONS@[15]@.map_values(to_upper) =~= upper);
        } else if upper == "INSERT"@ {
            reveal_strlit("Insert");
            reveal_strlit("INSERT");
            assert(PTT_KEY_OPTIONS@[16]@.map_values(to_upper) =~= upper);
        } else if upper == "HOME"@ {
            reveal_strlit("Home");
            reveal_strlit("HOME");
            assert(PTT_KEY_OPTIONS@[17]@.map_values(to_upper) =~= upper);
        } else if upper == "END"@ {
            reveal_strlit("End");
            reveal_strlit("END");
            assert(PTT_KEY_OPTIONS@[18]@.map_values(to_upper) =~= upper);
        } else if upper == "PAGEUP"@ {
            reveal_strlit("PageUp");
            reveal_strlit("PAGEUP");
            assert(PTT_KEY_OPTIONS@[19]@.map_values(to_upper) =~= upper);
        } else if upper == "PAGEDOWN"@ {
            reveal_strlit("PageDown");
            reveal_strlit("PAGEDOWN");
            assert(PTT_KEY_OPTIONS@[20]@.map_values(to_upper) =~= upper);
        }
    }
}

/// Only six names in upper case are names of modifiers. Control has two, and so has super.
pub proof fn only_six_modifiers_have_codes(upper: Seq<char>)
    ensures
        modifier_codes(upper) is Some <==> upper == "ALT"@ || upper == "CTRL"@ || upper == "CONTROL"@
            || upper == "SHIFT"@ || upper == "SUPER"@ || upper == "META"@,
        modifier_codes("ALT"@) == Some((56u16, 100u16)),
        modifier_codes("CTRL"@) == Some((29u16, 97u16)),
        modifier_codes("CONTROL"@) == Some((29u16, 97u16)),
        modifier_codes("SHIFT"@) == Some((42u16, 54u16)),
        modifier_codes("SUPER"@) == Some((125u16, 126u16)),
        modifier_codes("META"@) == Some((125u16, 126u16)),
{
    reveal_strlit("ALT");
    reveal_strlit("CTRL");
    reveal_strlit("CONTROL");
    reveal_strlit("SHIFT");
    reveal_strlit("SUPER");
    reveal_strlit("META");
    assert("ALT"@.len() == 3 && "CTRL"@.len() == 4 && "CONTROL"@.len() == 7);
    assert("SHIFT"@.len() == 5 && "SHIFT"@[1] == 'H');
    assert("SUPER"@.len() == 5 && "SUPER"@[1] == 'U');
    assert("META"@.len() == 4 && "META"@[0] == 'M' && "CTRL"@[0] == 'C');
}

/// A binding has the codes of its own modifier and of its own key: another modifier with other
/// codes, or another key with another code, gives another binding. A modifier without codes is as
/// none, and only a key without a code has no binding.
pub proof fn bindings_have_their_own_codes(
    modifier: Option<Seq<char>>,
    key: Seq<char>,
    left: u16,
    right: u16,
    code: u16,
)
    ensures
        binding_of(modifier, key) is None <==> key_code(key) is None,
        binding_of(modifier, key) matches Some(b) ==> {
            &&& b.target == code <==> key_code(key) == Some(code)
            &&& b.modifier == Some((left, right)) <==> (modifier matches Some(m)
                && modifier_codes(m) == Some((left, right)))
        },
{
}

/// The combination of a modifier and a key that are offered.
pub open spec fn option_combo(i: int, k: int) -> Seq<char> {
    PTT_MODIFIER_OPTIONS@[i]@ + seq!['+'] + PTT_KEY_OPTIONS@[k]@
}

/// Every modifier and every key that are offered make a combination that is bound to the codes of
/// both, so that different ones are bound differently. A key alone is bound without a modifier.
pub proof fn offered_combinations_are_bound(i: int, k: int)
    requires
        1 <= i < 5,
        0 <= k < 21,
    ensures
        ({
            let (modifier, key) = combo_parts(option_combo(i, k));
            let upper = |c: char| ascii_upper(c);
            &&& option_is_ascii(modifier) && is_ascii_text(key)
            &&& binding_of(option_ascii_upper(modifier), key.map_values(upper)) matches Some(b)
            &&& b.target == key_option_codes()[k]
            &&& b.modifier == Some(
                seq![(56u16, 100u16), (29, 97), (42, 54), (125, 126)][i - 1],
            )
        }),
        ({
            let (modifier, key) = combo_parts(PTT_KEY_OPTIONS@[k]@);
            let upper = |c: char| ascii_upper(c);
            &&& option_is_ascii(modifier) && is_ascii_text(key)
            &&& binding_of(option_ascii_upper(modifier), key.map_values(upper)) matches Some(b)
            &&& b.target == key_option_codes()[k]
            &&& b.modifier is None
        }),
        forall|j: int, l: int|
            1 <= j < 5 && 0 <= l < 21 && (j != i || l != k) ==> binding_of(
                option_ascii_upper(combo_parts(#[trigger] option_combo(j, l)).0),
                combo_parts(option_combo(j, l)).1.map_values(|c: char| ascii_upper(c)),
            ) != binding_of(
                option_ascii_upper(combo_parts(option_combo(i, k)).0),
                combo_parts(option_combo(i, k)).1.map_values(|c: char| ascii_upper(c)),
            ),
{
    lemma_option_bound(i, k);
    assert forall|j: int, l: int|
        1 <= j < 5 && 0 <= l < 21 && (j != i || l != k) implies binding_of(
        option_ascii_upper(combo_parts(#[trigger] option_combo(j, l)).0),
        combo_parts(option_combo(j, l)).1.map_values(|c: char| ascii_upper(c)),
    ) != binding_of(
        option_ascii_upper(combo_parts(option_combo(i, k)).0),
        combo_parts(option_combo(i, k)).1.map_values(|c: char| ascii_upper(c)),
    ) by {
        lemma_option_bound(j, l);
        key_options_have_codes(k);
    }
}

proof fn lemma_option_bound(i: int, k: int)
    requires
        1 <= i < 5,
        0 <= k < 21,
    ensures
        combo_parts(option_combo(i, k)) == (
            Some(PTT_MODIFIER_OPTIONS@[i]@),
            PTT_KEY_OPTIONS@[k]@,
        ),
        combo_parts(PTT_KEY_OPTIONS@[k]@) == (None::<Seq<char>>, PTT_KEY_OPTIONS@[k]@),
        is_ascii_text(PTT_MODIFIER_OPTIONS@[i]@),
        is_ascii_text(PTT_KEY_OPTIONS@[k]@),
        modifier_codes(PTT_MODIFIER_OPTIONS@[i]@.map_values(|c: char| ascii_upper(c))) == Some(
            seq![(56u16, 100u16), (29, 97), (42, 54), (125, 126)][i - 1],
        ),
        key_code(PTT_KEY_OPTIONS@[k]@.map_values(|c: char| ascii_upper(c))) == Some(
            key_option_codes()[k],
        ),
{
    key_options_are_plain(k);
    modifier_options_are_plain(i);
    key_options_have_codes(k);
    modifier_options_have_codes(i);
    combinations_have_two_parts(PTT_MODIFIER_OPTIONS@[i]@, PTT_KEY_OPTIONS@[k]@, Seq::empty());
    combinations_have_two_parts(PTT_KEY_OPTIONS@[k]@, PTT_KEY_OPTIONS@[k]@, Seq::empty());
}

// Held keys.

/// A press, a release or a repeat of a key, as the kernel reports it.
#[derive(Clone, Copy, PartialEq, Eq, Structural, Debug)]
pub struct KeyEvent {
    pub code: u16,
    pub value: i32,
}

impl Binding {
    /// Whether a code is that of the modifier.
    pub open spec fn is_modifier(self, code: u16) -> bool {
        match self.modifier {
            Some((l, r)) => code == l || code == r,
            None => false,
        }
    }
}

/// Whether the last press or release among the events, of those that `counts` picks, is a press.
pub open spec fn last_is_press(events: Seq<KeyEvent>, counts: spec_fn(u16) -> bool) -> bool
    decreases events.len(),
{
    if events.len() == 0 {
        false
    } else {
        let e = events.last();
        if counts(e.code) && e.value == 1 {
            true
        } else if counts(e.code) && e.value == 0 {
            false
        } else {
            last_is_press(events.drop_last(), counts)
        }
    }
}

/// Which of the keys that talk are held.
#[derive(Clone, Copy, Debug)]
pub struct HeldKeys {
    pub binding: Binding,
    pub modifier_held: bool,
    pub key_held: bool,
}

/// Whether a key is held after an event of it.
pub open spec fn held_after(held: bool, value: i32) -> bool {
    if value == 1 {
        true
    } else if value == 0 {
        false
    } else {
        held
    }
}

impl HeldKeys {
    /// No key is held.
    pub fn new(binding: Binding) -> (r: Self)
        ensures
            r.binding == binding,
            !r.modifier_held,
            !r.key_held,
    {
        HeldKeys { binding, modifier_held: false, key_held: false }
    }

    /// Whether the microphone is to be open: the key is held, and so is the modifier where there
    /// is one.
    pub open spec fn talks(self) -> bool {
        self.key_held && (self.binding.modifier is None || self.modifier_held)
    }

    /// What is held after an event.
    pub open spec fn after(self, e: KeyEvent) -> HeldKeys {
        HeldKeys {
            binding: self.binding,
            modifier_held: if self.binding.is_modifier(e.code) {
                held_after(self.modifier_held, e.value)
            } else {
                self.modifier_held
            },
            key_held: if e.code == self.binding.target {
                held_after(self.key_held, e.value)
            } else {
                self.key_held
            },
        }
    }

    /// What is held after events.
    pub open spec fn after_all(self, events: Seq<KeyEvent>) -> HeldKeys
        decreases events.len(),
    {
        if events.len() == 0 {
            self
        } else {
            self.after_all(events.drop_last()).after(events.last())
        }
    }

    /// Takes an event in. Says whether the microphone is to be open, and whether the event was one
    /// of the keys that talk.
    pub fn handle(&mut self, e: KeyEvent) -> (r: (bool, bool))
        ensures
            *final(self) == old(self).after(e),
            r.0 == final(self).talks(),
            r.1 == (e.code == old(self).binding.target || old(self).binding.is_modifier(e.code)),
            r.0 ==> final(self).key_held && (old(self).binding.modifier is Some
                ==> final(self).modifier_held),
            final(self).key_held && final(self).modifier_held ==> r.0,
            e.code == old(self).binding.target && e.value == 0 ==> !r.0,
            r.1 <== (old(self).binding.modifier matches Some((left, right)) && (e.code == left
                || e.code == right)),
    {
        let pressed = e.value == 1;
        let released = e.value == 0;
        let mut ours = false;
        if let Some((l, r)) = self.binding.modifier {
            if e.code == l || e.code == r {
                if pressed {
                    self.modifier_held = true;
                } else if released {
                    self.modifier_held = false;
                }
                ours = true;
            }
        }
        if e.code == self.binding.target {
            if pressed {
                self.key_held = true;
            } else if released {
                self.key_held = false;
            }
            ours = true;
        }
        (self.key_held && (self.binding.modifier.is_none() || self.modifier_held), ours)
    }
}

/// The microphone is open exactly while the key is held and, where there is a modifier, one of its
/// keys was pressed last: each counts by the last press or release of its own keys alone.
pub proof fn talks_while_held(start: HeldKeys, events: Seq<KeyEvent>)
    requires
        !start.key_held,
        !start.modifier_held,
    ensures
        ({
            let b = start.binding;
            start.after_all(events).talks() == (last_is_press(events, |c: u16| c == b.target) && (
            b.modifier is None || last_is_press(events, |c: u16| b.is_modifier(c))))
        }),
{
    lemma_held(start, events);
}

proof fn lemma_held(start: HeldKeys, events: Seq<KeyEvent>)
    requires
        !start.key_held,
        !start.modifier_held,
    ensures
        ({
            let b = start.binding;
            let h = start.after_all(events);
            &&& h.binding == b
            &&& h.key_held == last_is_press(events, |c: u16| c == b.target)
            &&& h.modifier_held == last_is_press(events, |c: u16| b.is_modifier(c))
        }),
    decreases events.len(),
{
    if events.len() > 0 {
        lemma_held(start, events.drop_last());
    }
}

/// A combination without a modifier opens the microphone with the press of its key and closes it
/// with the release.
pub proof fn press_opens_release_closes(held: HeldKeys, press: KeyEvent, release: KeyEvent)
    requires
        held.binding.modifier is None,
        press.code == held.binding.target,
        press.value == 1,
        release.code == held.binding.target,
        release.value == 0,
    ensures
        held.after(press).talks(),
        !held.after(press).after(release).talks(),
{
}

/// An event of another key, and a repeat of any key, changes nothing.
pub proof fn other_events_change_nothing(held: HeldKeys, e: KeyEvent)
    requires
        (e.value != 0 && e.value != 1) || (e.code != held.binding.target && (
        held.binding.modifier matches Some((l, r)) ==> e.code != l && e.code != r)),
    ensures
        held.after(e) == held,
{
}

/// A press of the key, or of the left or the right key of its modifier, holds it, and a release
/// lets go of it. Neither touches the other, unless they are the same key.
pub proof fn presses_hold_and_releases_let_go(held: HeldKeys, e: KeyEvent)
    requires
        e.value == 0 || e.value == 1,
    ensures
        held.after(e).binding == held.binding,
        e.code == held.binding.target ==> held.after(e).key_held == (e.value == 1),
        e.code != held.binding.target ==> held.after(e).key_held == held.key_held,
        held.binding.modifier matches Some((l, r)) ==> {
            &&& e.code == l || e.code == r ==> held.after(e).modifier_held == (e.value == 1)
            &&& e.code != l && e.code != r ==> held.after(e).modifier_held == held.modifier_held
        },
        held.binding.modifier is None ==> held.after(e).modifier_held == held.modifier_held,
{
}

/// With a modifier both have to be held, without one the key is enough.
pub proof fn both_keys_open_the_microphone(held: HeldKeys)
    ensures
        held.talks() ==> held.key_held,
        held.talks() && held.binding.modifier is Some ==> held.modifier_held,
        held.key_held && held.modifier_held ==> held.talks(),
        held.key_held && held.binding.modifier is None ==> held.talks(),
{
}

// Portal and fallback.

/// What becomes of the attempt to bind the combination through the portal.
#[derive(Clone, Copy, PartialEq, Eq, Structural, Debug)]
pub enum PortalEvent {
    /// The attempt ended without an error.
    Finished,
    /// The attempt ended with an error.
    Failed,
    /// The time for it is over; the portal may have become ready.
    TimeOver { ready: bool },
}

/// Whether the keyboards are to be read instead: the portal failed, or was not ready in time.
pub fn falls_back(event: PortalEvent) -> (r: bool)
    ensures
        r == match event {
            PortalEvent::Finished => false,
            PortalEvent::Failed => true,
            PortalEvent::TimeOver { ready } => !ready,
        },
{
    match event {
        PortalEvent::Finished => false,
        PortalEvent::Failed => true,
        PortalEvent::TimeOver { ready } => !ready,
    }
}

/// What becomes of the answer of the portal: a message that it is ready, with how it describes the
/// first shortcut that it bound, or an error where it bound none.
pub fn portal_answer(bound: Option<&str>) -> (r: Result<String, String>)
    ensures
        (match (bound, r) {
            (Some(description), Ok(message)) => message@ == "PTT: portal ready ("@ + description@
                + ")"@,
            (None, Err(message)) => message@ == "compositor did not bind any shortcuts"@,
            _ => false,
        }),
{
    match bound {
        Some(description) => {
            let mut message = String::new();
            message.append("PTT: portal ready (");
            message.append(description);
            message.append(")");
            assert(message@ =~= "PTT: portal ready ("@ + description@ + ")"@);
            Ok(message)
        },
        None => Err("compositor did not bind any shortcuts".to_string()),
    }
}

} // verus!
