use dioxus_primitives::text_search::{code_to_char, shares_phonetic_group, AdaptiveKeyboard, KeyboardLayout};

fn positions(pairs: &[(&str, char)]) -> Vec<(String, char)> {
    pairs.iter().map(|(k, c)| (k.to_string(), *c)).collect()
}

#[test]
fn text_search_test_detect_keyboard_layout() {
    let known_positions = positions(&[("KeyQ", 'q'), ("KeyW", 'w'), ("KeyE", 'e')]);
    let detected = KeyboardLayout::guess(&known_positions);
    assert_eq!(detected, KeyboardLayout::Qwerty);

    let known_positions = positions(&[("KeyQ", 'q'), ("KeyW", 'w'), ("KeyE", 'f'), ("KeyR", 'p')]);
    let detected = KeyboardLayout::guess(&known_positions);
    assert_eq!(detected, KeyboardLayout::ColemakDH);

    let known_positions: Vec<(String, char)> = Vec::new();
    let detected = KeyboardLayout::guess(&known_positions);
    assert_eq!(detected, KeyboardLayout::Qwerty);
}

#[test]
fn guess_other_layouts() {
    assert_eq!(KeyboardLayout::guess(&positions(&[("KeyQ", '\'')])), KeyboardLayout::Dvorak);
    assert_eq!(KeyboardLayout::guess(&positions(&[("KeyQ", 'a')])), KeyboardLayout::Azerty);
    assert_eq!(KeyboardLayout::guess(&positions(&[("KeyY", 'z')])), KeyboardLayout::Qwertz);
    assert_eq!(KeyboardLayout::guess(&positions(&[("KeyE", 'f'), ("KeyT", 'g')])), KeyboardLayout::Colemak);
    assert_eq!(KeyboardLayout::guess(&positions(&[("KeyW", 'd')])), KeyboardLayout::Workman);
    assert_eq!(KeyboardLayout::guess(&positions(&[("KeyA", 'ф')])), KeyboardLayout::Unknown);
    assert_eq!(KeyboardLayout::guess(&positions(&[("Space", ' ')])), KeyboardLayout::Unknown);
}

#[test]
fn key_codes() {
    assert_eq!(code_to_char("KeyA"), Some('a'));
    assert_eq!(code_to_char("KeyZ"), Some('z'));
    assert_eq!(code_to_char("Digit0"), Some('0'));
    assert_eq!(code_to_char("Digit9"), Some('9'));
    assert_eq!(code_to_char("Keya"), None);
    assert_eq!(code_to_char("KeyAB"), None);
    assert_eq!(code_to_char("Period"), None);
    assert_eq!(code_to_char(""), None);
}

#[test]
fn char_positions() {
    assert_eq!(KeyboardLayout::Qwerty.char_position('q'), Some((0, 1)));
    assert_eq!(KeyboardLayout::Qwerty.char_position('1'), Some((0, 0)));
    assert_eq!(KeyboardLayout::Qwerty.char_position('/'), Some((9, 3)));
    assert_eq!(KeyboardLayout::Dvorak.char_position('s'), Some((9, 2)));
    assert_eq!(KeyboardLayout::Qwertz.char_position('ö'), Some((9, 2)));
    assert_eq!(KeyboardLayout::Qwerty.char_position('α'), None);
    assert_eq!(KeyboardLayout::Unknown.char_position('q'), None);
    assert_eq!(KeyboardLayout::default(), KeyboardLayout::Unknown);
}

#[test]
fn test_adaptive_keyboard_learning() {
    let mut adaptive = AdaptiveKeyboard::new();
    assert_eq!(adaptive.layout(), KeyboardLayout::Qwerty);
    adaptive.learn_from_event("KeyA", 'ф');
    adaptive.learn_from_event("KeyS", 'ы');
    assert_eq!(adaptive.layout(), KeyboardLayout::Unknown);
    assert_eq!(adaptive.mapping("KeyA"), Some('ф'));
    assert_eq!(adaptive.mapping("KeyS"), Some('ы'));
    assert_eq!(adaptive.mapping("KeyD"), None);
}

#[test]
fn relearning_a_key_replaces_it() {
    let mut adaptive = AdaptiveKeyboard::default();
    adaptive.learn_from_event("KeyQ", 'a');
    assert_eq!(adaptive.layout(), KeyboardLayout::Azerty);
    adaptive.learn_from_event("KeyQ", 'q');
    assert_eq!(adaptive.mapping("KeyQ"), Some('q'));
    assert_eq!(adaptive.layout(), KeyboardLayout::Qwerty);
}

#[test]
fn phonetic_groups() {
    assert!(shares_phonetic_group('a', 'а'));
    assert!(shares_phonetic_group('b', 'ب'));
    assert!(shares_phonetic_group('f', 'ф'));
    assert!(!shares_phonetic_group('x', 'ж'));
    assert!(!shares_phonetic_group('a', 'b'));
}
