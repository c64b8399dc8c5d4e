//! Numbers as text: hexadecimal words and decimal numbers.

use vstd::prelude::*;
use vstd::string::StringExecFns;

verus! {

/// The character that writes the digit `v` in base 16, with the letters in
/// upper case if `upper` is set.
pub open spec fn hex_char(v: int, upper: bool) -> char {
    if v == 0 {
        '0'
    } else if v == 1 {
        '1'
    } else if v == 2 {
        '2'
    } else if v == 3 {
        '3'
    } else if v == 4 {
        '4'
    } else if v == 5 {
        '5'
    } else if v == 6 {
        '6'
    } else if v == 7 {
        '7'
    } else if v == 8 {
        '8'
    } else if v == 9 {
        '9'
    } else if v == 10 {
        if upper { 'A' } else { 'a' }
    } else if v == 11 {
        if upper { 'B' } else { 'b' }
    } else if v == 12 {
        if upper { 'C' } else { 'c' }
    } else if v == 13 {
        if upper { 'D' } else { 'd' }
    } else if v == 14 {
        if upper { 'E' } else { 'e' }
    } else {
        if upper { 'F' } else { 'f' }
    }
}

/// A word as four hexadecimal digits, the most significant first.
pub open spec fn hex4_text(word: u16, upper: bool) -> Seq<char> {
    seq![
        hex_char(word as int / 0x1000, upper),
        hex_char(word as int / 0x100 % 16, upper),
        hex_char(word as int / 0x10 % 16, upper),
        hex_char(word as int % 16, upper),
    ]
}

/// A number in decimal, without leading zeros.
pub open spec fn decimal_text(n: nat) -> Seq<char>
    decreases n,
{
    if n < 10 {
        seq![hex_char(n as int, false)]
    } else {
        decimal_text(n / 10).push(hex_char((n % 10) as int, false))
    }
}

/// A number in decimal, with a minus sign before it if it is negative.
pub open spec fn signed_text(n: int) -> Seq<char> {
    if n < 0 {
        seq!['-'] + decimal_text((-n) as nat)
    } else {
        decimal_text(n as nat)
    }
}

/// A number in hexadecimal, in lower case and without leading zeros.
pub open spec fn hex_text(n: nat) -> Seq<char>
    decreases n,
{
    if n < 16 {
        seq![hex_char(n as int, false)]
    } else {
        hex_text(n / 16).push(hex_char((n % 16) as int, false))
    }
}

/// The digit `v` of base 16 as a string of one character.
pub fn hex_digit(v: u16, upper: bool) -> (s: &'static str)
    requires
        v < 16,
    ensures
        s@ == seq![hex_char(v as int, upper)],
{
    proof {
        reveal_strlit("0");
        reveal_strlit("1");
        reveal_strlit("2");
        reveal_strlit("3");
        reveal_strlit("4");
        reveal_strlit("5");
        reveal_strlit("6");
        reveal_strlit("7");
        reveal_strlit("8");
        reveal_strlit("9");
        reveal_strlit("a");
        reveal_strlit("b");
        reveal_strlit("c");
        reveal_strlit("d");
        reveal_strlit("e");
        reveal_strlit("f");
        reveal_strlit("A");
        reveal_strlit("B");
        reveal_strlit("C");
        reveal_strlit("D");
        reveal_strlit("E");
        reveal_strlit("F");
    }
    let s = if v == 0 {
        "0"
    } else if v == 1 {
        "1"
    } else if v == 2 {
        "2"
    } else if v == 3 {
        "3"
    } else if v == 4 {
        "4"
    } else if v == 5 {
        "5"
    } else if v == 6 {
        "6"
    } else if v == 7 {
        "7"
    } else if v == 8 {
        "8"
    } else if v == 9 {
        "9"
    } else if v == 10 {
        if upper { "A" } else { "a" }
    } else if v == 11 {
        if upper { "B" } else { "b" }
    } else if v == 12 {
        if upper { "C" } else { "c" }
    } else if v == 13 {
        if upper { "D" } else { "d" }
    } else if v == 14 {
        if upper { "E" } else { "e" }
    } else {
        if upper { "F" } else { "f" }
    };
    assert(s@ =~= seq![hex_char(v as int, upper)]);
    s
}

/// Appends the four hexadecimal digits of `word` to `out`.
pub fn push_hex4(out: &mut String, word: u16, upper: bool)
    ensures
        final(out)@ == old(out)@ + hex4_text(word, upper),
{
    out.append(hex_digit(word / 0x1000, upper));
    out.append(hex_digit(word / 0x100 % 16, upper));
    out.append(hex_digit(word / 0x10 % 16, upper));
    out.append(hex_digit(word % 16, upper));
    assert(out@ =~= old(out)@ + hex4_text(word, upper));
}

/// Appends `n` in decimal to `out`.
pub fn push_decimal(out: &mut String, n: u64)
    ensures
        final(out)@ == old(out)@ + decimal_text(n as nat),
    decreases n,
{
    if n >= 10 {
        push_decimal(out, n / 10);
    }
    out.append(hex_digit((n % 10) as u16, false));
    assert(out@ =~= old(out)@ + decimal_text(n as nat));
}

/// Appends `n` in decimal to `out`, with a minus sign if it is negative.
pub fn push_signed(out: &mut String, n: i64)
    ensures
        final(out)@ == old(out)@ + signed_text(n as int),
{
    if n < 0 {
        proof {
            reveal_strlit("-");
        }
        out.append("-");
        push_decimal(out, (-(n + 1)) as u64 + 1);
        assert(out@ =~= old(out)@ + signed_text(n as int));
    } else {
        push_decimal(out, n as u64);
    }
}

/// Appends `n` in hexadecimal to `out`, in lower case and without leading zeros.
pub fn push_hex(out: &mut String, n: u16)
    ensures
        final(out)@ == old(out)@ + hex_text(n as nat),
    decreases n,
{
    if n >= 16 {
        push_hex(out, n / 16);
    }
    out.append(hex_digit(n % 16, false));
    assert(out@ =~= old(out)@ + hex_text(n as nat));
}

} // verus!
