use dioxus_primitives::otp::{
    active_index, otp_input, otp_keydown, parse_char_class, parse_full_value_char_class, CharMatcher, OtpKey,
    PatternMatcher,
};

fn chars(s: &str) -> Vec<char> {
    s.chars().collect()
}

#[test]
fn pattern_classes() {
    assert_eq!(parse_full_value_char_class("[0-9]*"), Some(vec![CharMatcher::Range('0', '9')]));
    assert_eq!(parse_full_value_char_class("^\\d+$"), Some(vec![CharMatcher::Digit]));
    assert_eq!(parse_full_value_char_class("\\d"), Some(vec![CharMatcher::Digit]));
    assert_eq!(parse_full_value_char_class("^[a-c]$"), Some(vec![CharMatcher::Range('a', 'c')]));
    assert_eq!(parse_full_value_char_class("[a-z"), None);
    assert_eq!(parse_full_value_char_class("abc"), None);
    assert_eq!(parse_full_value_char_class("[]"), Some(vec![]));
}

#[test]
fn bracket_class_bodies() {
    assert_eq!(parse_char_class("ab"), Some(vec![CharMatcher::Char('a'), CharMatcher::Char('b')]));
    assert_eq!(parse_char_class("\\dX"), Some(vec![CharMatcher::Digit, CharMatcher::Char('X')]));
    assert_eq!(parse_char_class("\\-a"), Some(vec![CharMatcher::Char('-'), CharMatcher::Char('a')]));
    assert_eq!(parse_char_class("0-9a-f"), Some(vec![CharMatcher::Range('0', '9'), CharMatcher::Range('a', 'f')]));
    assert_eq!(parse_char_class("a-"), None);
    assert_eq!(parse_char_class("\\"), None);
}

#[test]
fn pattern_matching() {
    let digits = PatternMatcher::new("[0-9]*");
    assert!(digits.matches("123"));
    assert!(!digits.matches("12a"));
    assert!(digits.matches(""));
    let any = PatternMatcher::new("[a-z");
    assert!(any.matches("!!"));
    assert!(digits.eq(&PatternMatcher::new("[0-9]*")));
    assert!(!digits.eq(&any));
}

#[test]
fn typing_and_deleting() {
    let m = PatternMatcher::new("[0-9]*");
    let e = otp_keydown(false, 4, chars("12"), 2, OtpKey::Character('3'), false, false, false, &m);
    assert_eq!(e.chars, chars("123"));
    assert_eq!(e.cursor, 3);
    assert!(e.changed && !e.complete);

    let e = otp_keydown(false, 4, chars("123"), 3, OtpKey::Character('4'), false, false, false, &m);
    assert_eq!(e.chars, chars("1234"));
    assert_eq!(e.cursor, 4);
    assert!(e.changed && e.complete);

    let e = otp_keydown(false, 4, chars("1234"), 4, OtpKey::Character('5'), false, false, false, &m);
    assert_eq!(e.chars, chars("1234"));
    assert!(!e.changed);

    let e = otp_keydown(false, 4, chars("12"), 2, OtpKey::Character('a'), false, false, false, &m);
    assert_eq!(e.chars, chars("12"));
    assert_eq!(e.cursor, 2);
    assert!(!e.changed);

    let e = otp_keydown(false, 4, chars("12"), 0, OtpKey::Character('9'), false, false, false, &m);
    assert_eq!(e.chars, chars("92"));
    assert_eq!(e.cursor, 1);

    let e = otp_keydown(false, 4, chars("12"), 2, OtpKey::Backspace, false, false, false, &m);
    assert_eq!(e.chars, chars("1"));
    assert_eq!(e.cursor, 1);

    let e = otp_keydown(false, 4, chars("12"), 2, OtpKey::Backspace, true, false, false, &m);
    assert_eq!(e.chars, chars(""));
    assert_eq!(e.cursor, 0);

    let e = otp_keydown(false, 4, chars("12"), 0, OtpKey::Delete, false, false, false, &m);
    assert_eq!(e.chars, chars("2"));
    assert_eq!(e.cursor, 0);

    let e = otp_keydown(false, 4, chars("12"), 2, OtpKey::Character('3'), true, false, false, &m);
    assert!(!e.changed);
}

#[test]
fn cursor_moves() {
    let m = PatternMatcher::new("[0-9]*");
    let e = otp_keydown(false, 4, chars("12"), 4, OtpKey::ArrowRight, false, false, false, &m);
    assert_eq!(e.cursor, 4);
    let e = otp_keydown(false, 4, chars("12"), 0, OtpKey::ArrowLeft, false, false, false, &m);
    assert_eq!(e.cursor, 0);
    let e = otp_keydown(false, 4, chars("12"), 1, OtpKey::End, false, false, false, &m);
    assert_eq!(e.cursor, 2);
    let e = otp_keydown(false, 4, chars("12"), 1, OtpKey::Home, false, false, false, &m);
    assert_eq!(e.cursor, 0);
    let e = otp_keydown(true, 4, chars("12"), 1, OtpKey::Home, false, false, false, &m);
    assert_eq!(e.cursor, 1);
    assert!(!e.changed);
}

#[test]
fn pasted_input() {
    let m = PatternMatcher::new("[0-9]*");
    let e = otp_input(&chars("12345"), 4, &chars(""), &m).unwrap();
    assert_eq!(e.chars, chars("1234"));
    assert_eq!(e.cursor, 4);
    assert!(e.changed && e.complete);
    assert!(otp_input(&chars("12a"), 4, &chars(""), &m).is_none());
    let e = otp_input(&chars("12"), 4, &chars("12"), &m).unwrap();
    assert!(!e.changed);
    assert_eq!(e.cursor, 2);
}

#[test]
fn active_slot() {
    assert_eq!(active_index(true, 6, 9), Some(5));
    assert_eq!(active_index(true, 6, 2), Some(2));
    assert_eq!(active_index(false, 6, 2), None);
    assert_eq!(active_index(true, 0, 0), None);
}

#[test]
fn anchored_patterns_keep_their_class() {
    let m = PatternMatcher::new("^[0-9]*");
    assert!(m.matches(""));
    assert!(m.matches("0123"));
    assert!(!m.matches("12a"));
    let both = PatternMatcher::new("^[a-c]+$");
    assert!(both.matches("abc"));
    assert!(!both.matches("abd"));
    let tail = PatternMatcher::new("\\d$");
    assert!(tail.matches("42"));
    assert!(!tail.matches("4x"));
}
