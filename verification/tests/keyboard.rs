use hackem::keyboard::{key_code, Key, NO_KEY};

#[test]
fn letters_are_held_in_ascii() {
    for i in 0..26u8 {
        assert_eq!(key_code(Key::Letter(i), false), Some(b'a' + i));
        assert_eq!(key_code(Key::Letter(i), true), Some(b'A' + i));
    }
    assert_eq!(key_code(Key::Letter(26), false), None);
    assert_eq!(key_code(Key::Letter(255), true), None);
}

#[test]
fn digits_are_held_as_themselves_or_the_character_above() {
    let above = b")!@#$%^&*(";
    for n in 0..10u8 {
        assert_eq!(key_code(Key::Digit(n), false), Some(b'0' + n));
        assert_eq!(key_code(Key::Digit(n), true), Some(above[n as usize]));
    }
    assert_eq!(key_code(Key::Digit(10), false), None);
}

#[test]
fn function_keys_follow_escape() {
    for n in 1..=12u8 {
        assert_eq!(key_code(Key::Function(n), false), Some(140 + n));
        assert_eq!(key_code(Key::Function(n), true), Some(140 + n));
    }
    assert_eq!(key_code(Key::Function(1), false), Some(141));
    assert_eq!(key_code(Key::Function(12), false), Some(152));
    assert_eq!(key_code(Key::Function(0), false), None);
    assert_eq!(key_code(Key::Function(13), false), None);
}

#[test]
fn other_keys_have_fixed_codes() {
    let table = [
        (Key::Space, 32u8),
        (Key::Enter, 128),
        (Key::Backspace, 129),
        (Key::ArrowLeft, 130),
        (Key::ArrowUp, 131),
        (Key::ArrowRight, 132),
        (Key::ArrowDown, 133),
        (Key::Home, 134),
        (Key::End, 135),
        (Key::PageUp, 136),
        (Key::PageDown, 137),
        (Key::Insert, 138),
        (Key::Delete, 139),
        (Key::Escape, 140),
        (Key::Comma, b','),
        (Key::Period, b'.'),
        (Key::Slash, b'/'),
        (Key::Semicolon, b';'),
        (Key::Colon, b':'),
        (Key::Pipe, b'|'),
        (Key::OpenBracket, b'['),
        (Key::CloseBracket, b']'),
        (Key::Backslash, b'\\'),
        (Key::Minus, b'-'),
        (Key::Equals, b'='),
        (Key::Questionmark, b'?'),
        (Key::Backtick, b'`'),
    ];
    for (key, code) in table {
        assert_eq!(key_code(key, false), Some(code));
        assert_eq!(key_code(key, true), Some(code));
        assert_ne!(code, NO_KEY);
    }
}
