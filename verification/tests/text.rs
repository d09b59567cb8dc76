use rump::bytes::{push_all, push_le32, read_le_word};
use rump::log::{drain_log, log_msg};
use rump::metadata::parse_line;
use rump::stream::TrackMetadata;
use rump::text::{
    chars_of, decimal_text, eq_ignore_case, has_char, has_text, not_after, parse_u16, push_decimal_two,
    same_text, split_first, text_of, trim_text,
};

#[test]
fn numbers_are_written() {
    assert_eq!(decimal_text(0), "0");
    assert_eq!(decimal_text(u64::MAX), "18446744073709551615");
    let mut out = "x".to_string();
    push_decimal_two(&mut out, 7);
    push_decimal_two(&mut out, 12);
    push_decimal_two(&mut out, 100);
    assert_eq!(out, "x0712100");
}

#[test]
fn numbers_are_read() {
    assert_eq!(parse_u16("8000"), Some(8000));
    assert_eq!(parse_u16("+00080"), Some(80));
    assert_eq!(parse_u16("65535"), Some(65535));
    for text in ["", "+", "65536", "-1", " 80", "80 ", "8x", "++8", "٣", "99999999999999999999999"] {
        assert_eq!(parse_u16(text), None);
        assert!(text.parse::<u16>().is_err());
    }
}

#[test]
fn numbers_that_are_written_are_read() {
    for n in 0..=u16::MAX {
        assert_eq!(parse_u16(&decimal_text(n as u64)), Some(n));
    }
}

#[test]
fn words_are_read_back() {
    for n in [0u32, 1, 0x1234_5678, u32::MAX] {
        let mut bytes = vec![9u8];
        push_le32(&mut bytes, n);
        assert_eq!(bytes[1..], n.to_le_bytes());
        assert_eq!(read_le_word(bytes[1], bytes[2], bytes[3], bytes[4]), n);
    }
    let mut bytes = vec![1u8];
    push_all(&mut bytes, &[2, 3]);
    assert_eq!(bytes, vec![1, 2, 3]);
}

#[test]
fn texts_are_split() {
    assert_eq!(split_first("a\tb\tc", '\t'), Some(("a".to_string(), "b\tc".to_string())));
    assert_eq!(split_first("\t", '\t'), Some((String::new(), String::new())));
    assert_eq!(split_first("abc", '\t'), None);
    assert!(has_char("ab", 'b') && !has_char("ab", 'c'));
    let chars = chars_of("äbc");
    assert_eq!(chars, vec!['ä', 'b', 'c']);
    assert_eq!(text_of(&chars, 1, 3), "bc");
}

#[test]
fn texts_are_searched() {
    assert!(has_text("HTTP/1.0 200 OK", "200"));
    assert!(has_text("abc", "") && has_text("aab", "ab"));
    assert!(!has_text("20", "200") && !has_text("2 00", "200"));
    assert!(same_text("a", "a") && !same_text("a", "A"));
}

#[test]
fn texts_are_trimmed() {
    assert_eq!(trim_text(" \t\r\nab c\u{0B}\u{0C} "), "ab c");
    assert_eq!(trim_text("\u{A0}\u{2003}x\u{3000}"), "x");
    assert_eq!(trim_text("\u{200B}x"), "\u{200B}x");
    assert_eq!(trim_text("  "), "");
}

#[test]
fn texts_are_ordered_as_strings() {
    let texts = ["", "A", "AB", "B", "a", "ab", "é", "\u{FFFD}", "\u{1F600}"];
    for a in texts {
        for b in texts {
            assert_eq!(not_after(a, b), a <= b);
        }
    }
}

#[test]
fn case_is_ignored_in_ascii_only() {
    assert!(eq_ignore_case("SpAcE", "space") && eq_ignore_case("", ""));
    assert!(!eq_ignore_case("é", "É") && !eq_ignore_case("ab", "a"));
    assert!(!eq_ignore_case("[", "{") && !eq_ignore_case("@", "`"));
}

#[test]
fn lines_of_the_player() {
    assert_eq!(parse_line("Daft Punk\tVoyager"), ("Daft Punk".to_string(), "Voyager".to_string()));
    assert_eq!(parse_line("a\tb\tc"), ("a".to_string(), "b\tc".to_string()));
    assert_eq!(parse_line("Voyager"), (String::new(), "Voyager".to_string()));
    assert_eq!(parse_line(""), (String::new(), String::new()));
}

#[test]
fn a_line_is_announced_once() {
    let mut track = TrackMetadata::default();
    assert!(track.take_changed().is_none());
    track.update("Daft Punk\tVoyager");
    assert!(track.changed);
    let announced = track.take_changed().unwrap();
    assert_eq!(announced.display_string(), "Daft Punk - Voyager");
    assert!(!announced.changed);
    assert!(track.take_changed().is_none());
    assert_eq!(track.title, "Voyager");
    track.update("Daft Punk\tVoyager");
    assert!(track.take_changed().is_some());
}

#[test]
fn messages_carry_their_time() {
    let mut log: Vec<String> = Vec::new();
    log_msg(&mut log, "12:34:56", "Stream stopped");
    assert_eq!(log, vec!["[12:34:56] Stream stopped"]);
}

#[test]
fn messages_are_drained_to_lines() {
    let mut log = vec!["a".to_string(), "b".to_string()];
    assert_eq!(drain_log(&mut log, true), "a\nb");
    assert!(log.is_empty());
    assert_eq!(drain_log(&mut log, true), "");
    log.push("c".to_string());
    assert_eq!(drain_log(&mut log, false), "\nc");
}

#[test]
fn draining_twice_adds_up() {
    let mut whole = vec!["".to_string(), "a".to_string(), "b".to_string()];
    let mut first = vec!["".to_string(), "a".to_string()];
    let mut second = vec!["b".to_string()];
    let once = drain_log(&mut whole, true);
    let mut twice = drain_log(&mut first, true);
    let more = drain_log(&mut second, twice.is_empty());
    twice.push_str(&more);
    assert_eq!(once, twice);
    assert_eq!(once, "a\nb");
}

#[test]
fn white_space_is_a_fixed_set() {
    let mut found: Vec<u32> = Vec::new();
    for c in '\0'..=char::MAX {
        if trim_text(&c.to_string()).is_empty() {
            found.push(c as u32);
        }
    }
    let mut expected: Vec<u32> = vec![0x20, 0x85, 0xA0, 0x1680, 0x2028, 0x2029, 0x202F, 0x205F, 0x3000];
    expected.extend(0x09..=0x0D);
    expected.extend(0x2000..=0x200A);
    expected.sort();
    assert_eq!(found, expected);
}
