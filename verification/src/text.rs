//! Text as bytes: lines, blanks, words and unsigned numbers.

use vstd::prelude::*;
use vstd::slice::slice_subrange;

verus! {

/// The byte that ends a line.
pub const NEWLINE: u8 = 0x0a;

/// The blank.
pub const BLANK: u8 = 0x20;

/// The digits `0` and `9`.
pub const DIGIT_0: u8 = 0x30;

pub const DIGIT_9: u8 = 0x39;

/// The letters `a` and `z`, lower case and upper case.
pub const LOWER_A: u8 = 0x61;

pub const LOWER_Z: u8 = 0x7a;

pub const UPPER_A: u8 = 0x41;

pub const UPPER_Z: u8 = 0x5a;

/// Whether a byte is ASCII white space: a blank, or one of tab, line feed,
/// vertical tab, form feed and carriage return.
pub open spec fn is_space(b: u8) -> bool {
    b == BLANK || (0x09 <= b && b <= 0x0d)
}

/// Index of the first line feed at or after `pos`, or the length of the
/// text where there is none.
pub open spec fn line_end(text: Seq<u8>, pos: int) -> int
    decreases text.len() - pos,
{
    if pos < 0 || pos >= text.len() || text[pos] == NEWLINE {
        pos
    } else {
        line_end(text, pos + 1)
    }
}

/// Index of the first byte at or after `i` that is not white space.
pub open spec fn skip_spaces(s: Seq<u8>, i: int) -> int
    decreases s.len() - i,
{
    if 0 <= i < s.len() && is_space(s[i]) {
        skip_spaces(s, i + 1)
    } else {
        i
    }
}

/// Index of the first byte at or after `i` that is white space.
pub open spec fn skip_word(s: Seq<u8>, i: int) -> int
    decreases s.len() - i,
{
    if 0 <= i < s.len() && !is_space(s[i]) {
        skip_word(s, i + 1)
    } else {
        i
    }
}

/// Length of the first `j` bytes without the white space at their end.
pub open spec fn trim_end(s: Seq<u8>, j: int) -> int
    decreases j,
{
    if 0 < j <= s.len() && is_space(s[j - 1]) {
        trim_end(s, j - 1)
    } else {
        j
    }
}

/// A line without the white space at its two ends.
pub open spec fn trimmed(s: Seq<u8>) -> Seq<u8> {
    let start = skip_spaces(s, 0);
    let end = trim_end(s, s.len() as int);
    if start < end {
        s.subrange(start, end)
    } else {
        Seq::empty()
    }
}

/// Whether `s` begins with the bytes of `prefix`.
pub open spec fn starts_with(s: Seq<u8>, prefix: Seq<u8>) -> bool {
    prefix.len() <= s.len() && s.subrange(0, prefix.len() as int) == prefix
}

/// The value of a byte as a digit: `0` to `9`, then the letters of either
/// case from ten on. A byte that is no digit has the value 36.
pub open spec fn digit_value(b: u8) -> int {
    if DIGIT_0 <= b && b <= DIGIT_9 {
        b - DIGIT_0
    } else if LOWER_A <= b && b <= LOWER_Z {
        b - LOWER_A + 10
    } else if UPPER_A <= b && b <= UPPER_Z {
        b - UPPER_A + 10
    } else {
        36
    }
}

/// Whether every byte of `s` is a digit below `radix`.
pub open spec fn all_digits(s: Seq<u8>, radix: int) -> bool {
    forall|i: int| 0 <= i < s.len() ==> digit_value(#[trigger] s[i]) < radix
}

/// The number that the digits of `s` write in base `radix`.
pub open spec fn digits_value(s: Seq<u8>, radix: int) -> int
    decreases s.len(),
{
    if s.len() == 0 {
        0
    } else {
        digits_value(s.drop_last(), radix) * radix + digit_value(s.last())
    }
}

/// The 16-bit number that `s` writes in base `radix`: one or more digits
/// whose value is below 2^16. Anything else writes no number.
pub open spec fn parse_u16(s: Seq<u8>, radix: int) -> Option<u16> {
    if s.len() > 0 && all_digits(s, radix) && digits_value(s, radix) <= 0xffff {
        Some(digits_value(s, radix) as u16)
    } else {
        None
    }
}

/// The plus sign.
pub const PLUS: u8 = 0x2b;

/// The 16-bit number that a literal writes in base `radix`: a number, which
/// a plus sign may precede.
pub open spec fn literal_value(s: Seq<u8>, radix: int) -> Option<u16> {
    if s.len() > 0 && s[0] == PLUS {
        parse_u16(s.subrange(1, s.len() as int), radix)
    } else {
        parse_u16(s, radix)
    }
}

/// Whether `s` begins with `0x` or `0X`.
pub open spec fn has_hex_prefix(s: Seq<u8>) -> bool {
    s.len() >= 2 && s[0] == DIGIT_0 && (s[1] == 0x78 || s[1] == 0x58)
}

/// Whether `needle` stands in `hay` at the index `at`.
pub open spec fn occurs_at(hay: Seq<u8>, needle: Seq<u8>, at: int) -> bool {
    0 <= at && at + needle.len() <= hay.len() && hay.subrange(at, at + needle.len()) == needle
}

/// Whether `needle` stands somewhere in `hay`.
pub open spec fn contains(hay: Seq<u8>, needle: Seq<u8>) -> bool {
    exists|at: int| occurs_at(hay, needle, at)
}

/// Whether `b` is ASCII white space.
pub fn is_space_byte(b: u8) -> (r: bool)
    ensures
        r == is_space(b),
{
    b == BLANK || (0x09 <= b && b <= 0x0d)
}

/// Finds where the line that holds position `pos` ends.
pub fn find_line_end(text: &[u8], pos: usize) -> (end: usize)
    requires
        pos <= text@.len(),
    ensures
        end == line_end(text@, pos as int),
        pos <= end <= text@.len(),
{
    let mut i: usize = pos;
    while i < text.len() && text[i] != NEWLINE
        invariant
            pos <= i <= text@.len(),
            line_end(text@, pos as int) == line_end(text@, i as int),
        decreases text@.len() - i,
    {
        i = i + 1;
    }
    i
}

/// Skips white space from `i` on.
pub fn skip_spaces_from(s: &[u8], i: usize) -> (j: usize)
    requires
        i <= s@.len(),
    ensures
        j == skip_spaces(s@, i as int),
        i <= j <= s@.len(),
{
    let mut j: usize = i;
    while j < s.len() && is_space_byte(s[j])
        invariant
            i <= j <= s@.len(),
            skip_spaces(s@, i as int) == skip_spaces(s@, j as int),
        decreases s@.len() - j,
    {
        j = j + 1;
    }
    j
}

/// Skips one word from `i` on.
pub fn skip_word_from(s: &[u8], i: usize) -> (j: usize)
    requires
        i <= s@.len(),
    ensures
        j == skip_word(s@, i as int),
        i <= j <= s@.len(),
{
    let mut j: usize = i;
    while j < s.len() && !is_space_byte(s[j])
        invariant
            i <= j <= s@.len(),
            skip_word(s@, i as int) == skip_word(s@, j as int),
        decreases s@.len() - j,
    {
        j = j + 1;
    }
    j
}

/// The line without the white space at its two ends.
pub fn trim(line: &[u8]) -> (r: &[u8])
    ensures
        r@ == trimmed(line@),
{
    let start = skip_spaces_from(line, 0);
    let mut end: usize = line.len();
    while end > 0 && is_space_byte(line[end - 1])
        invariant
            end <= line@.len(),
            trim_end(line@, line@.len() as int) == trim_end(line@, end as int),
        decreases end,
    {
        end = end - 1;
    }
    if start < end {
        slice_subrange(line, start, end)
    } else {
        let r = slice_subrange(line, 0, 0);
        assert(r@ =~= Seq::<u8>::empty());
        r
    }
}

/// Whether `s` begins with the bytes of `prefix`.
pub fn has_prefix(s: &[u8], prefix: &[u8]) -> (r: bool)
    ensures
        r == starts_with(s@, prefix@),
{
    if prefix.len() > s.len() {
        return false;
    }
    let mut i: usize = 0;
    while i < prefix.len()
        invariant
            i <= prefix@.len() <= s@.len(),
            s@.subrange(0, i as int) == prefix@.subrange(0, i as int),
        decreases prefix@.len() - i,
    {
        if s[i] != prefix[i] {
            assert(s@.subrange(0, prefix@.len() as int)[i as int] != prefix@[i as int]);
            return false;
        }
        assert(s@.subrange(0, i + 1) =~= s@.subrange(0, i as int).push(s@[i as int]));
        assert(prefix@.subrange(0, i + 1) =~= prefix@.subrange(0, i as int).push(prefix@[i as int]));
        i = i + 1;
    }
    assert(prefix@.subrange(0, i as int) =~= prefix@);
    true
}

/// The value of `b` as a digit, 36 where it is none.
pub fn digit_of(b: u8) -> (v: u32)
    ensures
        v == digit_value(b),
{
    if DIGIT_0 <= b && b <= DIGIT_9 {
        (b - DIGIT_0) as u32
    } else if LOWER_A <= b && b <= LOWER_Z {
        (b - LOWER_A) as u32 + 10
    } else if UPPER_A <= b && b <= UPPER_Z {
        (b - UPPER_A) as u32 + 10
    } else {
        36
    }
}

/// A number with one more digit is no smaller.
proof fn lemma_digits_value_grows(s: Seq<u8>, radix: int, n: int)
    requires
        2 <= radix,
        0 <= n <= s.len(),
        all_digits(s, radix),
    ensures
        0 <= digits_value(s.take(n), radix) <= digits_value(s, radix),
    decreases s.len() - n,
{
    if n == s.len() {
        assert(s.take(n) =~= s);
        lemma_digits_value_nonnegative(s, radix);
    } else {
        lemma_digits_value_grows(s, radix, n + 1);
        let longer = s.take(n + 1);
        assert(longer.drop_last() =~= s.take(n));
        lemma_digits_value_nonnegative(s.take(n), radix);
        let v = digits_value(s.take(n), radix);
        assert(v * radix >= v) by (nonlinear_arith)
            requires
                v >= 0,
                radix >= 2,
        ;
        assert(digit_value(longer.last()) >= 0);
    }
}

/// The value of a digit string is not negative.
proof fn lemma_digits_value_nonnegative(s: Seq<u8>, radix: int)
    requires
        2 <= radix,
    ensures
        0 <= digits_value(s, radix),
    decreases s.len(),
{
    if s.len() > 0 {
        lemma_digits_value_nonnegative(s.drop_last(), radix);
        let v = digits_value(s.drop_last(), radix);
        assert(v * radix >= 0) by (nonlinear_arith)
            requires
                v >= 0,
                radix >= 2,
        ;
    }
}

/// Reads the 16-bit number that `digits` writes in base `radix`.
pub fn parse_number(digits: &[u8], radix: u32) -> (r: Option<u16>)
    requires
        2 <= radix <= 36,
    ensures
        r == parse_u16(digits@, radix as int),
{
    if digits.len() == 0 {
        return None;
    }
    let mut value: u32 = 0;
    let mut i: usize = 0;
    while i < digits.len()
        invariant
            2 <= radix <= 36,
            i <= digits@.len(),
            all_digits(digits@.take(i as int), radix as int),
            value == digits_value(digits@.take(i as int), radix as int),
            value <= 0xffff,
        decreases digits@.len() - i,
    {
        let d = digit_of(digits[i]);
        if d >= radix {
            assert(!all_digits(digits@, radix as int));
            return None;
        }
        proof {
            let longer = digits@.take(i + 1);
            assert(longer.drop_last() =~= digits@.take(i as int));
            assert(longer.last() == digits@[i as int]);
            assert forall|k: int| 0 <= k < longer.len() implies digit_value(#[trigger] longer[k])
                < radix by {
                if k < i {
                    assert(digits@.take(i as int)[k] == longer[k]);
                }
            }
            assert(value * radix <= 0xffff * 36) by (nonlinear_arith)
                requires
                    value <= 0xffff,
                    radix <= 36,
            ;
        }
        let next = value * radix + d;
        if next > 0xffff {
            proof {
                if all_digits(digits@, radix as int) {
                    lemma_digits_value_grows(digits@, radix as int, i + 1);
                }
            }
            return None;
        }
        value = next;
        i = i + 1;
    }
    assert(digits@.take(i as int) =~= digits@);
    Some(value as u16)
}

/// Reads the 16-bit number that a literal writes in base `radix`.
pub fn parse_literal(literal: &[u8], radix: u32) -> (r: Option<u16>)
    requires
        2 <= radix <= 36,
    ensures
        r == literal_value(literal@, radix as int),
{
    if literal.len() > 0 && literal[0] == PLUS {
        parse_number(slice_subrange(literal, 1, literal.len()), radix)
    } else {
        parse_number(literal, radix)
    }
}

/// Whether `s` begins with `0x` or `0X`.
pub fn hex_prefixed(s: &[u8]) -> (r: bool)
    ensures
        r == has_hex_prefix(s@),
{
    s.len() >= 2 && s[0] == DIGIT_0 && (s[1] == 0x78 || s[1] == 0x58)
}

/// Whether `needle` stands somewhere in `hay`.
pub fn contains_bytes(hay: &[u8], needle: &[u8]) -> (r: bool)
    ensures
        r == contains(hay@, needle@),
{
    if needle.len() > hay.len() {
        assert(!contains(hay@, needle@));
        return false;
    }
    let last = hay.len() - needle.len();
    let mut at: usize = 0;
    loop
        invariant
            last == hay@.len() - needle@.len(),
            at <= last,
            forall|k: int| 0 <= k < at ==> !occurs_at(hay@, needle@, k),
        decreases last - at,
    {
        let rest = slice_subrange(hay, at, hay.len());
        assert(rest@.subrange(0, needle@.len() as int) =~= hay@.subrange(
            at as int,
            at + needle@.len(),
        ));
        if has_prefix(rest, needle) {
            assert(occurs_at(hay@, needle@, at as int));
            return true;
        }
        if at == last {
            assert(!contains(hay@, needle@));
            return false;
        }
        at = at + 1;
    }
}

} // verus!
