//! What holds of every load: a sectioned text that writes words out is read
//! back as those words, at the addresses it names, and nothing else changes.

use vstd::prelude::*;

use crate::code_loader::{
    apply_line, hex_word, load_from, load_spec, parse_header, start_of_load, store_word,
    tag_comment, tag_hackem, tag_ram, tag_rom, tag_version, Format, LoadError, LoadProgress,
    LoadState, LoadTarget,
};
use crate::engine::{well_formed, EngineState, MEMORY_SIZE};
use crate::text::{
    all_digits, digit_value, digits_value, has_hex_prefix, is_space, line_end, parse_u16,
    skip_spaces, skip_word, starts_with, trimmed, DIGIT_0, LOWER_A, NEWLINE,
};

verus! {

/// The byte that writes the digit `v` of base 16, in lower case.
pub open spec fn hex_byte(v: int) -> u8 {
    if v < 10 {
        (DIGIT_0 + v) as u8
    } else {
        (LOWER_A + v - 10) as u8
    }
}

/// A word as the bytes of four hexadecimal digits, the most significant first.
pub open spec fn hex4_bytes(word: u16) -> Seq<u8> {
    seq![
        hex_byte(word as int / 0x1000),
        hex_byte(word as int / 0x100 % 16),
        hex_byte(word as int / 0x10 % 16),
        hex_byte(word as int % 16),
    ]
}

/// A line and, after a line feed, the rest of a text.
pub open spec fn line_then(line: Seq<u8>, rest: Seq<u8>) -> Seq<u8> {
    line + seq![NEWLINE] + rest
}

/// Words as lines of four hexadecimal digits, and after them the rest of a text.
pub open spec fn words_then(words: Seq<u16>, rest: Seq<u8>) -> Seq<u8>
    decreases words.len(),
{
    if words.len() == 0 {
        rest
    } else {
        line_then(hex4_bytes(words[0]), words_then(words.drop_first(), rest))
    }
}

/// The header line with the halt address `halt`: `hackem v1.0 0x` and four digits.
pub open spec fn header_line(halt: u16) -> Seq<u8> {
    tag_hackem() + seq![0x20u8] + tag_version() + seq![0x20u8, 0x30u8, 0x78u8] + hex4_bytes(halt)
}

/// A section header: the tag and the address as four digits.
pub open spec fn section_line(tag: Seq<u8>, address: u16) -> Seq<u8> {
    tag + hex4_bytes(address)
}

/// The text of an image: the header, the ROM section from `rom_at` on and
/// the RAM section from `ram_at` on.
pub open spec fn image_text(
    halt: u16,
    rom_at: u16,
    rom: Seq<u16>,
    ram_at: u16,
    ram: Seq<u16>,
) -> Seq<u8> {
    line_then(
        header_line(halt),
        line_then(
            section_line(tag_rom(), rom_at),
            words_then(
                rom,
                line_then(section_line(tag_ram(), ram_at), words_then(ram, Seq::empty())),
            ),
        ),
    )
}

/// A memory with `words` laid over it from the address `at` on.
pub open spec fn overlay(memory: Seq<u16>, at: int, words: Seq<u16>) -> Seq<u16> {
    Seq::new(
        memory.len(),
        |i: int| if at <= i < at + words.len() { words[i - at] } else { memory[i] },
    )
}

/// Whether no byte of `line` is a line feed.
pub open spec fn one_line(line: Seq<u8>) -> bool {
    forall|i: int| 0 <= i < line.len() ==> line[i] != NEWLINE
}

proof fn lemma_line_end_within(line: Seq<u8>, rest: Seq<u8>, i: int)
    requires
        one_line(line),
        0 <= i <= line.len(),
    ensures
        line_end(line_then(line, rest), i) == line.len(),
    decreases line.len() - i,
{
    let text = line_then(line, rest);
    if i < line.len() {
        assert(text[i] == line[i]);
        lemma_line_end_within(line, rest, i + 1);
    } else {
        assert(text[i] == NEWLINE);
    }
}

proof fn lemma_line_end_shift(pre: Seq<u8>, rest: Seq<u8>, p: int)
    requires
        0 <= p <= rest.len(),
    ensures
        line_end(pre + rest, pre.len() + p) == pre.len() + line_end(rest, p),
        p <= line_end(rest, p) <= rest.len(),
    decreases rest.len() - p,
{
    if p < rest.len() {
        assert((pre + rest)[pre.len() + p] == rest[p]);
        if rest[p] != NEWLINE {
            lemma_line_end_shift(pre, rest, p + 1);
        }
    }
}

/// The load of a text from a position on does not depend on what stands
/// before the position.
proof fn lemma_load_shift(pre: Seq<u8>, rest: Seq<u8>, p: int, st: LoadState)
    requires
        0 <= p <= rest.len(),
    ensures
        load_from(pre + rest, pre.len() + p, st) == load_from(rest, p, st),
    decreases rest.len() - p,
{
    let text = pre + rest;
    lemma_line_end_shift(pre, rest, p);
    let end = line_end(rest, p);
    assert(text.subrange(pre.len() + p, pre.len() + end) =~= rest.subrange(p, end));
    match apply_line(st, trimmed(rest.subrange(p, end))) {
        Err(e) => {},
        Ok(next) => {
            if end < rest.len() {
                lemma_load_shift(pre, rest, end + 1, next);
            }
        },
    }
}

/// The load of a line and the rest of a text is the load of the rest,
/// after the line has been applied.
pub proof fn lemma_load_line_then(line: Seq<u8>, rest: Seq<u8>, st: LoadState)
    requires
        one_line(line),
    ensures
        load_from(line_then(line, rest), 0, st) == match apply_line(st, trimmed(line)) {
            Err(e) => Err(e),
            Ok(next) => load_from(rest, 0, next),
        },
{
    let text = line_then(line, rest);
    lemma_line_end_within(line, rest, 0);
    assert(text.subrange(0, line.len() as int) =~= line);
    match apply_line(st, trimmed(line)) {
        Err(e) => {},
        Ok(next) => {
            let pre = line + seq![NEWLINE];
            assert(text =~= pre + rest);
            lemma_load_shift(pre, rest, 0, next);
        },
    }
}

/// A line that begins and ends with bytes that are not white space is its
/// own trimmed form.
proof fn lemma_trimmed_is_itself(line: Seq<u8>)
    requires
        line.len() > 0,
        !is_space(line[0]),
        !is_space(line.last()),
    ensures
        trimmed(line) == line,
{
    assert(line.subrange(0, line.len() as int) =~= line);
}

/// The digits of base 16 are written by bytes that are no white space and
/// no line feed, and that read back as the digit.
proof fn lemma_hex_byte(v: int)
    requires
        0 <= v < 16,
    ensures
        digit_value(hex_byte(v)) == v,
        !is_space(hex_byte(v)),
        hex_byte(v) != NEWLINE,
        hex_byte(v) != 0x2f,
        hex_byte(v) != 0x52,
        hex_byte(v) != 0x68,
{
}

/// A word is the sum of its four digits of base 16, each at its place.
proof fn lemma_nibbles(word: u16)
    ensures
        0 <= word as int / 0x1000 < 16,
        ((word as int / 0x1000 * 16 + word as int / 0x100 % 16) * 16 + word as int / 0x10 % 16)
            * 16 + word as int % 16 == word,
{
}

/// The value of four digits.
proof fn lemma_digits4(a: u8, b: u8, c: u8, d: u8, radix: int)
    ensures
        digits_value(seq![a, b, c, d], radix) == ((digit_value(a) * radix + digit_value(b))
            * radix + digit_value(c)) * radix + digit_value(d),
{
    let s4 = seq![a, b, c, d];
    let s3 = seq![a, b, c];
    let s2 = seq![a, b];
    let s1 = seq![a];
    assert(s4.drop_last() =~= s3);
    assert(s3.drop_last() =~= s2);
    assert(s2.drop_last() =~= s1);
    assert(s1.drop_last() =~= Seq::<u8>::empty());
    assert(digits_value(Seq::<u8>::empty(), radix) == 0);
    assert(digits_value(s1, radix) == 0 * radix + digit_value(a));
    assert(digits_value(s1, radix) == digit_value(a)) by (nonlinear_arith)
        requires
            digits_value(s1, radix) == 0 * radix + digit_value(a),
    ;
    assert(digits_value(s2, radix) == digits_value(s1, radix) * radix + digit_value(b));
    assert(digits_value(s3, radix) == digits_value(s2, radix) * radix + digit_value(c));
    assert(digits_value(s4, radix) == digits_value(s3, radix) * radix + digit_value(d));
}

/// Four hexadecimal digits read back as the word that they write.
proof fn lemma_hex4_reads_back(word: u16)
    ensures
        hex4_bytes(word).len() == 4,
        parse_u16(hex4_bytes(word), 16) == Some(word),
        one_line(hex4_bytes(word)),
        trimmed(hex4_bytes(word)) == hex4_bytes(word),
        !starts_with(hex4_bytes(word), tag_comment()),
        !starts_with(hex4_bytes(word), tag_ram()),
        !starts_with(hex4_bytes(word), tag_rom()),
        !is_space(hex4_bytes(word)[3]),
{
    let h = hex4_bytes(word);
    let d3 = word as int / 0x1000;
    let d2 = word as int / 0x100 % 16;
    let d1 = word as int / 0x10 % 16;
    let d0 = word as int % 16;
    lemma_nibbles(word);
    lemma_hex_byte(d3);
    lemma_hex_byte(d2);
    lemma_hex_byte(d1);
    lemma_hex_byte(d0);
    assert(all_digits(h, 16));
    assert(one_line(h));
    lemma_digits4(hex_byte(d3), hex_byte(d2), hex_byte(d1), hex_byte(d0), 16);
    assert(digits_value(h, 16) == word);
    lemma_trimmed_is_itself(h);
    assert(!starts_with(h, tag_comment())) by {
        assert(h.subrange(0, 2)[0] == h[0]);
        assert(tag_comment()[0] == 0x2f);
    }
    assert(!starts_with(h, tag_ram())) by {
        assert(h.subrange(0, 4)[0] == h[0]);
        assert(tag_ram()[0] == 0x52);
    }
    assert(!starts_with(h, tag_rom())) by {
        assert(h.subrange(0, 4)[0] == h[0]);
        assert(tag_rom()[0] == 0x52);
    }
}

/// A run of bytes that are no white space, up to a white space or the end, is one word.
proof fn lemma_word_run(s: Seq<u8>, i: int, j: int)
    requires
        0 <= i <= j <= s.len(),
        forall|k: int| i <= k < j ==> !is_space(#[trigger] s[k]),
        j == s.len() || is_space(s[j]),
    ensures
        skip_word(s, i) == j,
    decreases j - i,
{
    if i < j {
        lemma_word_run(s, i + 1, j);
    }
}

/// A run of white space, up to a byte that is none or the end, is skipped as one.
proof fn lemma_space_run(s: Seq<u8>, i: int, j: int)
    requires
        0 <= i <= j <= s.len(),
        forall|k: int| i <= k < j ==> is_space(#[trigger] s[k]),
        j == s.len() || !is_space(s[j]),
    ensures
        skip_spaces(s, i) == j,
    decreases j - i,
{
    if i < j {
        lemma_space_run(s, i + 1, j);
    }
}

/// A section header sets the target and the cursor.
proof fn lemma_section_opens(st: LoadState, target: LoadTarget, address: u16)
    requires
        st.progress.format == Format::Hackem,
        target != LoadTarget::Unset,
    ensures
        one_line(section_line(tag_of(target), address)),
        apply_line(st, trimmed(section_line(tag_of(target), address))) == Ok::<
            LoadState,
            LoadError,
        >(LoadState { progress: LoadProgress { target, cursor: address, ..st.progress }, ..st }),
{
    let tag = tag_of(target);
    let line = section_line(tag, address);
    lemma_hex4_reads_back(address);
    let h = hex4_bytes(address);
    assert(line.len() == 8);
    assert forall|i: int| 0 <= i < line.len() implies line[i] != NEWLINE by {
        if i >= 4 {
            assert(line[i] == h[i - 4]);
        } else {
            assert(line[i] == tag[i]);
        }
    }
    assert(line[0] == 0x52);
    assert(line.last() == h[3]);
    lemma_hex_byte(address as int % 16);
    lemma_trimmed_is_itself(line);
    assert(line.subrange(0, 2)[0] == line[0]);
    assert(tag_comment()[0] == 0x2f);
    assert(!starts_with(line, tag_comment()));
    assert(line.subrange(0, 4) =~= tag);
    assert(line.subrange(4, 8) =~= h);
    assert(tag_ram()[1] != tag_rom()[1]);
}

/// The tag of the section that stores to `target`.
pub open spec fn tag_of(target: LoadTarget) -> Seq<u8> {
    if target == LoadTarget::Ram {
        tag_ram()
    } else {
        tag_rom()
    }
}

/// The state of a load after `words` have been stored from the cursor on.
pub open spec fn after_words(st: LoadState, words: Seq<u16>) -> LoadState {
    let at = st.progress.cursor as int;
    LoadState {
        engine: if st.progress.target == LoadTarget::Ram {
            EngineState { ram: overlay(st.engine.ram, at, words), ..st.engine }
        } else {
            EngineState { rom: overlay(st.engine.rom, at, words), ..st.engine }
        },
        progress: LoadProgress { cursor: (at + words.len()) as u16, ..st.progress },
    }
}

/// Laying a first word and then the others from the next address on is
/// laying them all.
proof fn lemma_overlay_step(memory: Seq<u16>, at: int, words: Seq<u16>)
    requires
        words.len() > 0,
        0 <= at,
        at + words.len() <= memory.len(),
    ensures
        overlay(memory.update(at, words[0]), at + 1, words.drop_first()) == overlay(
            memory,
            at,
            words,
        ),
        overlay(memory, at, Seq::<u16>::empty()) == memory,
{
    let tail = words.drop_first();
    let first = memory.update(at, words[0]);
    assert forall|i: int| 0 <= i < memory.len() implies overlay(first, at + 1, tail)[i] == overlay(
        memory,
        at,
        words,
    )[i] by {
        if at + 1 <= i < at + 1 + tail.len() {
            assert(tail[i - (at + 1)] == words[i - at]);
        }
    }
    assert(overlay(first, at + 1, tail) =~= overlay(memory, at, words));
    assert(overlay(memory, at, Seq::<u16>::empty()) =~= memory);
}

/// A line of four hexadecimal digits stores the word that it writes.
proof fn lemma_word_line_stores(st: LoadState, word: u16)
    requires
        st.progress.format == Format::Hackem,
    ensures
        one_line(hex4_bytes(word)),
        apply_line(st, trimmed(hex4_bytes(word))) == store_word(st, word),
{
    lemma_hex4_reads_back(word);
    let line = hex4_bytes(word);
    assert(hex_word(line) == Some(word));
}

/// Words that are written out as lines are stored from the cursor on, in
/// their order, and the load goes on with the rest of the text.
proof fn lemma_load_words(words: Seq<u16>, rest: Seq<u8>, st: LoadState)
    requires
        st.progress.format == Format::Hackem,
        st.progress.target != LoadTarget::Unset,
        st.progress.cursor + words.len() <= MEMORY_SIZE,
        st.engine.ram.len() == MEMORY_SIZE,
        st.engine.rom.len() == MEMORY_SIZE,
    ensures
        load_from(words_then(words, rest), 0, st) == load_from(rest, 0, after_words(st, words)),
    decreases words.len(),
{
    let at = st.progress.cursor as int;
    if words.len() == 0 {
        assert(overlay(st.engine.ram, at, words) =~= st.engine.ram);
        assert(overlay(st.engine.rom, at, words) =~= st.engine.rom);
        assert(after_words(st, words) == st);
    } else {
        let word = words[0];
        let tail = words.drop_first();
        lemma_word_line_stores(st, word);
        lemma_load_line_then(hex4_bytes(word), words_then(tail, rest), st);
        let next = store_word(st, word)->Ok_0;
        assert(store_word(st, word) == Ok::<LoadState, LoadError>(next));
        assert(load_from(words_then(words, rest), 0, st) == load_from(
            words_then(tail, rest),
            0,
            next,
        ));
        lemma_load_words(tail, rest, next);
        lemma_overlay_step(st.engine.ram, at, words);
        lemma_overlay_step(st.engine.rom, at, words);
        assert(after_words(next, tail) == after_words(st, words));
    }
}

/// The header line is made of three words.
proof fn lemma_header_words(halt: u16)
    ensures
        header_line(halt).len() == 18,
        one_line(header_line(halt)),
        trimmed(header_line(halt)) == header_line(halt),
        starts_with(header_line(halt), tag_hackem()),
        skip_spaces(header_line(halt), 0) == 0,
        skip_word(header_line(halt), 0) == 6,
        skip_spaces(header_line(halt), 6) == 7,
        skip_word(header_line(halt), 7) == 11,
        skip_spaces(header_line(halt), 11) == 12,
        skip_word(header_line(halt), 12) == 18,
        skip_spaces(header_line(halt), 18) == 18,
        header_line(halt).subrange(7, 11) == tag_version(),
        header_line(halt).subrange(12, 18) == seq![0x30u8, 0x78u8] + hex4_bytes(halt),
{
    let line = header_line(halt);
    let h = hex4_bytes(halt);
    lemma_hex_byte(halt as int / 0x1000);
    lemma_hex_byte(halt as int / 0x100 % 16);
    lemma_hex_byte(halt as int / 0x10 % 16);
    lemma_hex_byte(halt as int % 16);
    let fixed = seq![
        0x68u8,
        0x61u8,
        0x63u8,
        0x6bu8,
        0x65u8,
        0x6du8,
        0x20u8,
        0x76u8,
        0x31u8,
        0x2eu8,
        0x30u8,
        0x20u8,
        0x30u8,
        0x78u8,
    ];
    assert(line =~= fixed + h);
    assert forall|k: int| 0 <= k < 18 implies #[trigger] line[k] != NEWLINE && (is_space(line[k])
        <==> (k == 6 || k == 11)) by {
        if k < 14 {
            assert(line[k] == fixed[k]);
        } else {
            assert(line[k] == h[k - 14]);
        }
    }
    lemma_trimmed_is_itself(line);
    assert(line.subrange(0, 6) =~= tag_hackem());
    lemma_space_run(line, 0, 0);
    lemma_word_run(line, 0, 6);
    lemma_space_run(line, 6, 7);
    lemma_word_run(line, 7, 11);
    lemma_space_run(line, 11, 12);
    lemma_word_run(line, 12, 18);
    lemma_space_run(line, 18, 18);
    assert(line.subrange(7, 11) =~= tag_version());
    assert(line.subrange(12, 18) =~= seq![0x30u8, 0x78u8] + h);
}

/// The header line sets the format and the halt address.
proof fn lemma_header_applies(st: LoadState, halt: u16)
    requires
        st.progress.format == Format::Unknown,
    ensures
        one_line(header_line(halt)),
        apply_line(st, trimmed(header_line(halt))) == Ok::<LoadState, LoadError>(
            LoadState {
                engine: EngineState { halt_addr: halt, ..st.engine },
                progress: LoadProgress { format: Format::Hackem, ..st.progress },
            },
        ),
{
    let line = header_line(halt);
    let h = hex4_bytes(halt);
    lemma_header_words(halt);
    lemma_hex4_reads_back(halt);
    let word = line.subrange(12, 18);
    assert(has_hex_prefix(word));
    assert(word.subrange(2, 6) =~= h);
    assert(parse_header(line) == Ok::<u16, LoadError>(halt));
}

/// A sectioned text that writes out a halt address, words for ROM from
/// `rom_at` on and words for RAM from `ram_at` on loads without a failure.
/// Afterwards the halt address is the one written, ROM and RAM hold the
/// words at those addresses, and every other cell and all the rest of the
/// machine are as they were.
pub proof fn lemma_load_round_trip(
    engine: EngineState,
    halt: u16,
    rom_at: u16,
    rom: Seq<u16>,
    ram_at: u16,
    ram: Seq<u16>,
)
    requires
        well_formed(engine),
        rom_at + rom.len() <= MEMORY_SIZE,
        ram_at + ram.len() <= MEMORY_SIZE,
    ensures
        load_spec(engine, image_text(halt, rom_at, rom, ram_at, ram)) == Ok::<
            EngineState,
            LoadError,
        >(
            EngineState {
                halt_addr: halt,
                rom: overlay(engine.rom, rom_at as int, rom),
                ram: overlay(engine.ram, ram_at as int, ram),
                ..engine
            },
        ),
{
    let st0 = LoadState { engine, progress: start_of_load() };
    let ram_part = line_then(section_line(tag_ram(), ram_at), words_then(ram, Seq::empty()));
    let rom_part = line_then(section_line(tag_rom(), rom_at), words_then(rom, ram_part));
    lemma_header_applies(st0, halt);
    lemma_load_line_then(header_line(halt), rom_part, st0);
    let st1 = LoadState {
        engine: EngineState { halt_addr: halt, ..engine },
        progress: LoadProgress { format: Format::Hackem, ..start_of_load() },
    };
    lemma_section_opens(st1, LoadTarget::Rom, rom_at);
    lemma_load_line_then(section_line(tag_rom(), rom_at), words_then(rom, ram_part), st1);
    let st2 = LoadState {
        progress: LoadProgress { target: LoadTarget::Rom, cursor: rom_at, ..st1.progress },
        ..st1
    };
    lemma_load_words(rom, ram_part, st2);
    let st3 = after_words(st2, rom);
    lemma_section_opens(st3, LoadTarget::Ram, ram_at);
    lemma_load_line_then(section_line(tag_ram(), ram_at), words_then(ram, Seq::empty()), st3);
    let st4 = LoadState {
        progress: LoadProgress { target: LoadTarget::Ram, cursor: ram_at, ..st3.progress },
        ..st3
    };
    lemma_load_words(ram, Seq::empty(), st4);
    let st5 = after_words(st4, ram);
    let nothing = Seq::<u8>::empty();
    assert(line_end(nothing, 0) == 0);
    assert(nothing.subrange(0, 0) =~= nothing);
    assert(trimmed(nothing) =~= nothing);
    assert(load_from(nothing, 0, st5) == Ok::<LoadState, LoadError>(st5));
}

} // verus!
