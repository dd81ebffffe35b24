use mini_x::flash_messages::{add_flash, FlashMessages};
use mini_x::text::{i64_to_text, is_printable_ascii, parse_i64, split_on_commas, text_less, to_hex_lower, trim};

#[test]
fn split_matches_str_split() {
    for s in ["", "a", "a,b", ",", "a,,b", "one,two,", "üñî,çødé"] {
        let expected: Vec<String> = s.split(',').map(|p| p.to_string()).collect();
        assert_eq!(split_on_commas(s), expected);
    }
}

#[test]
fn text_order_is_byte_order() {
    assert!(text_less("a", "b"));
    assert!(!text_less("b", "a"));
    assert!(text_less("ab", "abc"));
    assert!(!text_less("abc", "abc"));
    assert!(text_less("", "a"));
    assert!(!text_less("", ""));
    assert!(text_less("Z", "a"));
    assert!(text_less("z", "é"));
}

#[test]
fn hex_is_lower_case_two_digits_per_byte() {
    assert_eq!(to_hex_lower(&[0x00, 0x0f, 0xab, 0xff, 0x10]), "000fabff10");
    assert_eq!(to_hex_lower(&[]), "");
}

#[test]
fn integer_text_round_trip() {
    for v in [0i64, 7, -7, 10, 1234567890, i64::MAX, i64::MIN, -1] {
        assert_eq!(i64_to_text(v), v.to_string());
        assert_eq!(parse_i64(&i64_to_text(v)), Some(v));
    }
}

#[test]
fn integer_parse_matches_std() {
    for s in ["", "+", "-", "12", "+12", "-12", "007", "1a", " 1", "9223372036854775807",
              "9223372036854775808", "-9223372036854775808", "-9223372036854775809",
              "99999999999999999999999", "١"] {
        assert_eq!(parse_i64(s), s.parse::<i64>().ok(), "for {:?}", s);
    }
}

#[test]
fn flash_notes_come_back_in_order() {
    let mut session: Option<String> = None;
    add_flash(&mut session, "first");
    add_flash(&mut session, "second");
    assert_eq!(session.as_deref(), Some("first,second"));
    let flashes = FlashMessages::from_session(&mut session).unwrap();
    assert_eq!(flashes.messages, vec!["first".to_string(), "second".to_string()]);
    assert!(session.is_none());
    assert!(FlashMessages::from_session(&mut session).is_none());
}

#[test]
fn flash_note_with_a_comma_splits() {
    let mut session: Option<String> = None;
    add_flash(&mut session, "a,b");
    let flashes = FlashMessages::from_session(&mut session).unwrap();
    assert_eq!(flashes.messages, vec!["a".to_string(), "b".to_string()]);
}

#[test]
fn flashes_default_to_none() {
    assert!(mini_x::flash_messages::flashes_or_default(None).is_empty());
    let f = FlashMessages { messages: vec!["x".to_string()] };
    assert_eq!(mini_x::flash_messages::flashes_or_default(Some(f)), vec!["x".to_string()]);
}

#[test]
fn trim_matches_str_trim() {
    for s in ["", "   ", "a", "  a b  ", "\t\n x \r", "\u{a0}y\u{3000}", "\u{200b}z\u{200b}", "\u{85}\u{1680}w\u{2029}\u{202f}\u{205f}"] {
        assert_eq!(trim(s), s.trim(), "for {:?}", s);
    }
}

#[test]
fn printable_ascii_check() {
    assert!(is_printable_ascii("$2b$10$abc./XYZ"));
    assert!(is_printable_ascii(""));
    assert!(is_printable_ascii("~\u{7f}"));
    assert!(!is_printable_ascii("a\u{1f}"));
    assert!(!is_printable_ascii("a\u{80}"));
    assert!(!is_printable_ascii("é"));
}

#[test]
fn several_flash_notes_come_back_in_order_once() {
    let mut session: Option<String> = None;
    for n in ["one", "two", "three", "four"] {
        add_flash(&mut session, n);
    }
    let flashes = FlashMessages::from_session(&mut session).unwrap();
    assert_eq!(flashes.messages, vec!["one", "two", "three", "four"]);
    assert!(FlashMessages::from_session(&mut session).is_none());
}
