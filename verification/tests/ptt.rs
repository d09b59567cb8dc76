use rump::ptt::{
    combo_to_xdg_trigger, evdev_binding, evdev_key, evdev_modifier, falls_back, parse_evdev_key,
    parse_evdev_modifier, portal_answer, split_combo, xdg_trigger, Binding, HeldKeys, KeyEvent, PortalEvent,
    PTT_KEY_OPTIONS, PTT_MODIFIER_OPTIONS,
};

#[test]
fn test_combo_to_xdg_trigger() {
    assert_eq!(combo_to_xdg_trigger("Alt+Space"), "<Alt>space");
    assert_eq!(combo_to_xdg_trigger("Ctrl+F1"), "<Ctrl>f1");
    assert_eq!(combo_to_xdg_trigger("F5"), "f5");
}

#[test]
fn test_parse_evdev_key() {
    assert!(parse_evdev_key("Space").is_some());
    assert!(parse_evdev_key("F12").is_some());
    assert!(parse_evdev_key("nope").is_none());
}

#[test]
fn test_parse_evdev_modifier() {
    assert!(parse_evdev_modifier("Alt").is_some());
    assert!(parse_evdev_modifier("Ctrl").is_some());
    assert!(parse_evdev_modifier("nope").is_none());
}

#[test]
fn trigger_of_other_combinations() {
    assert_eq!(combo_to_xdg_trigger(""), "");
    assert_eq!(combo_to_xdg_trigger("Alt+"), "<Alt>");
    assert_eq!(combo_to_xdg_trigger("Ctrl+Alt+F1"), "ctrl");
    assert_eq!(combo_to_xdg_trigger("ÄÖ"), "äö");
    assert_eq!(xdg_trigger(&Some("Shift".to_string()), "home".to_string()), "<Shift>home");
}

#[test]
fn combinations_are_split_at_one_plus_sign() {
    assert_eq!(split_combo("Alt+Space"), (Some("Alt".to_string()), "Space".to_string()));
    assert_eq!(split_combo("Space"), (None, "Space".to_string()));
    assert_eq!(split_combo("A+B+C"), (None, "A".to_string()));
    assert_eq!(split_combo("+"), (Some(String::new()), String::new()));
}

#[test]
fn keys_have_the_codes_of_the_kernel() {
    let codes: Vec<u16> = PTT_KEY_OPTIONS.iter().map(|k| parse_evdev_key(k).unwrap()).collect();
    assert_eq!(
        codes,
        vec![57, 59, 60, 61, 62, 63, 64, 65, 66, 67, 68, 87, 88, 58, 70, 119, 110, 102, 107, 104, 109]
    );
    assert_eq!(parse_evdev_key("pageDOWN"), Some(evdev::KeyCode::KEY_PAGEDOWN.0));
    assert_eq!(evdev_key("ſPACE"), None);
    assert_eq!(parse_evdev_key("ſpace"), Some(57));
}

#[test]
fn modifiers_have_the_codes_of_the_kernel() {
    assert_eq!(parse_evdev_modifier("alt"), Some((56, 100)));
    assert_eq!(parse_evdev_modifier("Control"), Some((29, 97)));
    assert_eq!(parse_evdev_modifier("Ctrl"), parse_evdev_modifier("Control"));
    assert_eq!(parse_evdev_modifier("Shift"), Some((42, 54)));
    assert_eq!(parse_evdev_modifier("Super"), Some((125, 126)));
    assert_eq!(parse_evdev_modifier("Meta"), Some((125, 126)));
    assert_eq!(parse_evdev_modifier("None"), None);
    assert_eq!(evdev_modifier("alt"), None);
    assert!(PTT_MODIFIER_OPTIONS.iter().skip(1).all(|m| parse_evdev_modifier(m).is_some()));
}

#[test]
fn binding_of_a_combination() {
    let b = evdev_binding("Alt+Space").unwrap();
    assert_eq!((b.target, b.modifier), (57, Some((56, 100))));
    let b = evdev_binding("f7").unwrap();
    assert_eq!((b.target, b.modifier), (65, None));
    let b = evdev_binding("Hyper+F7").unwrap();
    assert_eq!((b.target, b.modifier), (65, None));
    assert_eq!(evdev_binding("Alt+Nope").unwrap_err(), "PTT: unknown key: Nope");
    assert_eq!(evdev_binding("").unwrap_err(), "PTT: unknown key: ");
}

fn event(code: u16, value: i32) -> KeyEvent {
    KeyEvent { code, value }
}

#[test]
fn microphone_is_open_while_both_keys_are_held() {
    let mut held = HeldKeys::new(Binding { target: 57, modifier: Some((56, 100)) });
    assert_eq!(held.handle(event(57, 1)), (false, true));
    assert_eq!(held.handle(event(100, 1)), (true, true));
    assert_eq!(held.handle(event(57, 2)), (true, true));
    assert_eq!(held.handle(event(30, 1)), (true, false));
    assert_eq!(held.handle(event(56, 0)), (false, true));
    assert_eq!(held.handle(event(56, 1)), (true, true));
    assert_eq!(held.handle(event(57, 0)), (false, true));
}

#[test]
fn press_opens_and_release_closes() {
    let mut held = HeldKeys::new(Binding { target: 57, modifier: None });
    assert_eq!(held.handle(event(57, 1)), (true, true));
    assert_eq!(held.handle(event(57, 0)), (false, true));
    assert_eq!(held.handle(event(56, 1)), (false, false));
}

#[test]
fn keyboards_are_read_where_the_portal_fails() {
    assert!(!falls_back(PortalEvent::Finished));
    assert!(falls_back(PortalEvent::Failed));
    assert!(falls_back(PortalEvent::TimeOver { ready: false }));
    assert!(!falls_back(PortalEvent::TimeOver { ready: true }));
}

#[test]
fn portal_says_what_it_bound() {
    assert_eq!(portal_answer(Some("Alt+Space")).unwrap(), "PTT: portal ready (Alt+Space)");
    assert_eq!(portal_answer(None).unwrap_err(), "compositor did not bind any shortcuts");
}
