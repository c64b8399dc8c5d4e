//! The keyboard of the machine: the byte that it holds while a key is down.
//!
//! A key that writes a character is held as the ASCII code of the
//! character; the other keys have codes from 128 on. The byte 0 stands for
//! no key.

use vstd::prelude::*;

verus! {

/// The byte that the keyboard holds while no key is down.
pub const NO_KEY: u8 = 0;

/// A key of the keyboard.
#[derive(Clone, Copy, Debug, PartialEq, Eq)]
pub enum Key {
    /// A letter, counted from 0 for `a` to 25 for `z`.
    Letter(u8),
    /// A digit of the top row, from 0 to 9.
    Digit(u8),
    /// A function key, from 1 to 12.
    Function(u8),
    Space,
    Enter,
    Backspace,
    ArrowLeft,
    ArrowUp,
    ArrowRight,
    ArrowDown,
    Home,
    End,
    PageUp,
    PageDown,
    Insert,
    Delete,
    Escape,
    Comma,
    Period,
    Slash,
    Semicolon,
    Colon,
    Pipe,
    OpenBracket,
    CloseBracket,
    Backslash,
    Minus,
    Equals,
    Questionmark,
    Backtick,
}

/// The character above a digit of the top row: `)` above 0, then `!`, `@`,
/// `#`, `$`, `%`, `^`, `&`, `*` and `(`.
pub open spec fn shifted_digit(n: u8) -> u8 {
    if n == 0 {
        0x29
    } else if n == 1 {
        0x21
    } else if n == 2 {
        0x40
    } else if n == 3 {
        0x23
    } else if n == 4 {
        0x24
    } else if n == 5 {
        0x25
    } else if n == 6 {
        0x5e
    } else if n == 7 {
        0x26
    } else if n == 8 {
        0x2a
    } else {
        0x28
    }
}

/// The code of a key that writes no letter and no digit.
pub open spec fn plain_code(key: Key) -> u8 {
    match key {
        Key::Space => 32,
        Key::Enter => 128,
        Key::Backspace => 129,
        Key::ArrowLeft => 130,
        Key::ArrowUp => 131,
        Key::ArrowRight => 132,
        Key::ArrowDown => 133,
        Key::Home => 134,
        Key::End => 135,
        Key::PageUp => 136,
        Key::PageDown => 137,
        Key::Insert => 138,
        Key::Delete => 139,
        Key::Escape => 140,
        Key::Comma => 44,
        Key::Period => 46,
        Key::Slash => 47,
        Key::Semicolon => 59,
        Key::Colon => 58,
        Key::Pipe => 124,
        Key::OpenBracket => 91,
        Key::CloseBracket => 93,
        Key::Backslash => 92,
        Key::Minus => 45,
        Key::Equals => 61,
        Key::Questionmark => 63,
        Key::Backtick => 96,
        _ => 0,
    }
}

/// The byte that the keyboard holds while `key` is down, with the shift key
/// down too if `shift` is set. A letter is held in lower case, or in upper
/// case with shift; a digit as itself, or with shift as the character above
/// it; a function key as 140 and its number; on every other key shift has
/// no effect. A letter, digit or function key that is out of its range is
/// no key.
pub open spec fn key_code_spec(key: Key, shift: bool) -> Option<u8> {
    match key {
        Key::Letter(i) => if i < 26 {
            Some(if shift { (0x41 + i) as u8 } else { (0x61 + i) as u8 })
        } else {
            None
        },
        Key::Digit(n) => if n < 10 {
            Some(if shift { shifted_digit(n) } else { (0x30 + n) as u8 })
        } else {
            None
        },
        Key::Function(n) => if 1 <= n <= 12 {
            Some((140 + n) as u8)
        } else {
            None
        },
        _ => Some(plain_code(key)),
    }
}

/// Whether a key writes a character.
pub open spec fn writes_character(key: Key) -> bool {
    !(key is Function) && plain_code(key) < 128
}

/// The byte that the keyboard holds while `key` is down.
pub fn key_code(key: Key, shift: bool) -> (code: Option<u8>)
    ensures
        code == key_code_spec(key, shift),
{
    let code: u8 = match key {
        Key::Letter(i) => {
            if i >= 26 {
                return None;
            }
            if shift { 0x41 + i } else { 0x61 + i }
        },
        Key::Digit(n) => {
            if n >= 10 {
                return None;
            }
            if !shift {
                0x30 + n
            } else if n == 0 {
                0x29
            } else if n == 1 {
                0x21
            } else if n == 2 {
                0x40
            } else if n == 3 {
                0x23
            } else if n == 4 {
                0x24
            } else if n == 5 {
                0x25
            } else if n == 6 {
                0x5e
            } else if n == 7 {
                0x26
            } else if n == 8 {
                0x2a
            } else {
                0x28
            }
        },
        Key::Function(n) => {
            if n < 1 || n > 12 {
                return None;
            }
            140 + n
        },
        Key::Space => 32,
        Key::Enter => 128,
        Key::Backspace => 129,
        Key::ArrowLeft => 130,
        Key::ArrowUp => 131,
        Key::ArrowRight => 132,
        Key::ArrowDown => 133,
        Key::Home => 134,
        Key::End => 135,
        Key::PageUp => 136,
        Key::PageDown => 137,
        Key::Insert => 138,
        Key::Delete => 139,
        Key::Escape => 140,
        Key::Comma => 44,
        Key::Period => 46,
        Key::Slash => 47,
        Key::Semicolon => 59,
        Key::Colon => 58,
        Key::Pipe => 124,
        Key::OpenBracket => 91,
        Key::CloseBracket => 93,
        Key::Backslash => 92,
        Key::Minus => 45,
        Key::Equals => 61,
        Key::Questionmark => 63,
        Key::Backtick => 96,
    };
    Some(code)
}

/// No key is held as the byte that stands for no key. A key that writes a
/// character is held as a printable ASCII code, and every other key as a
/// code from 128 to 152.
pub proof fn lemma_key_codes(key: Key, shift: bool)
    requires
        key_code_spec(key, shift) is Some,
    ensures
        key_code_spec(key, shift) != Some(NO_KEY),
        writes_character(key) ==> 32 <= key_code_spec(key, shift)->Some_0 <= 126,
        !writes_character(key) ==> 128 <= key_code_spec(key, shift)->Some_0 <= 152,
{
}

/// Without shift, two keys that are held as the same byte are the same key.
pub proof fn lemma_keys_differ(a: Key, b: Key)
    requires
        key_code_spec(a, false) is Some,
        key_code_spec(a, false) == key_code_spec(b, false),
    ensures
        a == b,
{
}

} // verus!
