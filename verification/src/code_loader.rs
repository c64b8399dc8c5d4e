//! The code loader: two textual program formats, read into the ROM and RAM
//! images of an engine.
//!
//! The format is told from the first line that is not blank. A line that
//! begins with `hackem` is the header of the sectioned format,
//! `hackem v1.0 0xHALT`; after it a line is a comment (`//`), a section
//! header (`RAM@` or `ROM@` and a hexadecimal address) or a word of four
//! hexadecimal digits, stored at the cursor of the current section. Any
//! other first line makes the text a raw image: every line that is no
//! comment is a word of sixteen binary digits, stored in ROM from address 0.

use vstd::prelude::*;
use vstd::slice::slice_subrange;
use vstd::string::{StringExecFns, StringSliceAdditionalSpecFns};

use crate::engine::{EngineState, HackEngine, MEMORY_SIZE};
use crate::text::{
    find_line_end, has_hex_prefix, has_prefix, hex_prefixed, line_end, parse_number, parse_u16,
    skip_spaces, skip_spaces_from, skip_word, skip_word_from, starts_with, trim, trimmed,
};

verus! {

/// Why a load failed. After a failed load the images may hold part of the text.
#[derive(Clone, Copy, Debug, PartialEq, Eq, Structural)]
pub enum LoadError {
    /// The header line is not made of three words.
    InvalidVersionLine,
    /// The version in the header is not `v1.0`.
    InvalidVersion,
    /// A halt address, a section address or a word is not a number of the form asked for.
    InvalidLiteral,
    /// A word comes before any section header.
    NoTarget,
    /// A word is to be stored at an address that is not below the memory size.
    AddressOutOfRange,
}

/// What a failed load says of itself.
pub open spec fn load_error_text(e: LoadError) -> Seq<char> {
    match e {
        LoadError::InvalidVersionLine => "Invalid version line"@,
        LoadError::InvalidVersion => "Invalid version"@,
        LoadError::InvalidLiteral => "Invalid literal"@,
        LoadError::NoTarget => "No target specified"@,
        LoadError::AddressOutOfRange => "Address out of range"@,
    }
}

impl LoadError {
    /// What the failed load says of itself.
    pub fn message(&self) -> (text: String)
        ensures
            text@ == load_error_text(*self),
    {
        match self {
            LoadError::InvalidVersionLine => String::from_str("Invalid version line"),
            LoadError::InvalidVersion => String::from_str("Invalid version"),
            LoadError::InvalidLiteral => String::from_str("Invalid literal"),
            LoadError::NoTarget => String::from_str("No target specified"),
            LoadError::AddressOutOfRange => String::from_str("Address out of range"),
        }
    }
}

/// The image that words are stored in.
#[derive(Clone, Copy, Debug, PartialEq, Eq, Structural)]
pub enum LoadTarget {
    Ram,
    Rom,
    /// No section header has been read.
    Unset,
}

/// The format of the text, once the first line that is not blank has told it.
#[derive(Clone, Copy, Debug, PartialEq, Eq, Structural)]
pub enum Format {
    Unknown,
    Hackem,
    Raw,
}

/// Where a load stands between two lines.
#[derive(Clone, Copy, Debug, PartialEq, Eq, Structural)]
pub struct LoadProgress {
    pub format: Format,
    pub target: LoadTarget,
    /// Address at which the next word is stored.
    pub cursor: u16,
}

/// The machine and the loader between two lines.
pub struct LoadState {
    pub engine: EngineState,
    pub progress: LoadProgress,
}

/// The bytes of `hackem`.
pub open spec fn tag_hackem() -> Seq<u8> {
    seq![0x68u8, 0x61u8, 0x63u8, 0x6bu8, 0x65u8, 0x6du8]
}

/// The bytes of `v1.0`.
pub open spec fn tag_version() -> Seq<u8> {
    seq![0x76u8, 0x31u8, 0x2eu8, 0x30u8]
}

/// The bytes of `//`.
pub open spec fn tag_comment() -> Seq<u8> {
    seq![0x2fu8, 0x2fu8]
}

/// The bytes of `RAM@`.
pub open spec fn tag_ram() -> Seq<u8> {
    seq![0x52u8, 0x41u8, 0x4du8, 0x40u8]
}

/// The bytes of `ROM@`.
pub open spec fn tag_rom() -> Seq<u8> {
    seq![0x52u8, 0x4fu8, 0x4du8, 0x40u8]
}

/// The halt address that a header line gives. The line is made of three
/// words; the second is `v1.0`, the third is `0x` or `0X` and a hexadecimal number.
pub open spec fn parse_header(line: Seq<u8>) -> Result<u16, LoadError> {
    let a0 = skip_spaces(line, 0);
    let a1 = skip_word(line, a0);
    let b0 = skip_spaces(line, a1);
    let b1 = skip_word(line, b0);
    let c0 = skip_spaces(line, b1);
    let c1 = skip_word(line, c0);
    let end = skip_spaces(line, c1);
    if !(a0 < a1 && b0 < b1 && c0 < c1 && end == line.len()) {
        Err(LoadError::InvalidVersionLine)
    } else if line.subrange(b0, b1) != tag_version() {
        Err(LoadError::InvalidVersion)
    } else {
        let halt = line.subrange(c0, c1);
        if has_hex_prefix(halt) {
            match parse_u16(halt.subrange(2, halt.len() as int), 16) {
                Some(address) => Ok(address),
                None => Err(LoadError::InvalidLiteral),
            }
        } else {
            Err(LoadError::InvalidLiteral)
        }
    }
}

/// The word that a data line of the sectioned format writes: four hexadecimal digits.
pub open spec fn hex_word(line: Seq<u8>) -> Option<u16> {
    if line.len() == 4 {
        parse_u16(line, 16)
    } else {
        None
    }
}

/// The word that a line of a raw image writes: sixteen binary digits.
pub open spec fn binary_word(line: Seq<u8>) -> Option<u16> {
    if line.len() == 16 {
        parse_u16(line, 2)
    } else {
        None
    }
}

/// Stores a word at the cursor of the current section and moves the cursor on.
pub open spec fn store_word(st: LoadState, word: u16) -> Result<LoadState, LoadError> {
    let at = st.progress.cursor;
    let moved = LoadProgress { cursor: (at + 1) as u16, ..st.progress };
    match st.progress.target {
        LoadTarget::Unset => Err(LoadError::NoTarget),
        LoadTarget::Ram => if at >= MEMORY_SIZE {
            Err(LoadError::AddressOutOfRange)
        } else {
            Ok(
                LoadState {
                    engine: EngineState { ram: st.engine.ram.update(at as int, word), ..st.engine },
                    progress: moved,
                },
            )
        },
        LoadTarget::Rom => if at >= MEMORY_SIZE {
            Err(LoadError::AddressOutOfRange)
        } else {
            Ok(
                LoadState {
                    engine: EngineState { rom: st.engine.rom.update(at as int, word), ..st.engine },
                    progress: moved,
                },
            )
        },
    }
}

/// A section header: the image named and the cursor set to the address after the tag.
pub open spec fn open_section(st: LoadState, line: Seq<u8>, target: LoadTarget) -> Result<
    LoadState,
    LoadError,
> {
    match parse_u16(line.subrange(4, line.len() as int), 16) {
        Some(address) => Ok(
            LoadState { progress: LoadProgress { target, cursor: address, ..st.progress }, ..st },
        ),
        None => Err(LoadError::InvalidLiteral),
    }
}

/// A line of the sectioned format after the header.
pub open spec fn apply_hackem(st: LoadState, line: Seq<u8>) -> Result<LoadState, LoadError> {
    if starts_with(line, tag_comment()) {
        Ok(st)
    } else if starts_with(line, tag_ram()) {
        open_section(st, line, LoadTarget::Ram)
    } else if starts_with(line, tag_rom()) {
        open_section(st, line, LoadTarget::Rom)
    } else {
        match hex_word(line) {
            Some(word) => store_word(st, word),
            None => Err(LoadError::InvalidLiteral),
        }
    }
}

/// A line of a raw image.
pub open spec fn apply_raw(st: LoadState, line: Seq<u8>) -> Result<LoadState, LoadError> {
    if starts_with(line, tag_comment()) {
        Ok(st)
    } else {
        match binary_word(line) {
            Some(word) => store_word(st, word),
            None => Err(LoadError::InvalidLiteral),
        }
    }
}

/// The first line that is not blank: a header, or the first line of a raw
/// image, whose words go to ROM from the cursor on.
pub open spec fn apply_first(st: LoadState, line: Seq<u8>) -> Result<LoadState, LoadError> {
    if starts_with(line, tag_hackem()) {
        match parse_header(line) {
            Ok(halt) => Ok(
                LoadState {
                    engine: EngineState { halt_addr: halt, ..st.engine },
                    progress: LoadProgress { format: Format::Hackem, ..st.progress },
                },
            ),
            Err(e) => Err(e),
        }
    } else {
        apply_raw(
            LoadState {
                progress: LoadProgress {
                    format: Format::Raw,
                    target: LoadTarget::Rom,
                    ..st.progress
                },
                ..st
            },
            line,
        )
    }
}

/// What one line, without the white space at its ends, does to a load.
pub open spec fn apply_line(st: LoadState, line: Seq<u8>) -> Result<LoadState, LoadError> {
    if line.len() == 0 {
        Ok(st)
    } else {
        match st.progress.format {
            Format::Unknown => apply_first(st, line),
            Format::Hackem => apply_hackem(st, line),
            Format::Raw => apply_raw(st, line),
        }
    }
}

/// The load of the lines of `text` from position `pos` on.
pub open spec fn load_from(text: Seq<u8>, pos: int, st: LoadState) -> Result<LoadState, LoadError>
    decreases text.len() - pos,
{
    let end = line_end(text, pos);
    match apply_line(st, trimmed(text.subrange(pos, end))) {
        Err(e) => Err(e),
        Ok(next) => if pos <= end < text.len() {
            load_from(text, end + 1, next)
        } else {
            Ok(next)
        },
    }
}

/// A load that has read nothing yet.
pub open spec fn start_of_load() -> LoadProgress {
    LoadProgress { format: Format::Unknown, target: LoadTarget::Unset, cursor: 0 }
}

/// The machine after `text` is loaded into `engine`, or why the load fails.
pub open spec fn load_spec(engine: EngineState, text: Seq<u8>) -> Result<EngineState, LoadError> {
    match load_from(text, 0, LoadState { engine, progress: start_of_load() }) {
        Ok(st) => Ok(st.engine),
        Err(e) => Err(e),
    }
}

/// Whether the outcome `r` of a load, which left the machine in `after`, is
/// the one that the text asks for.
pub open spec fn loaded(
    before: EngineState,
    text: Seq<u8>,
    after: EngineState,
    r: Result<(), LoadError>,
) -> bool {
    match load_spec(before, text) {
        Ok(engine) => r == Ok::<(), LoadError>(()) && after == engine,
        Err(e) => r == Err::<(), LoadError>(e),
    }
}

/// Reads the halt address from a header line.
pub fn read_header(line: &[u8]) -> (r: Result<u16, LoadError>)
    ensures
        r == parse_header(line@),
{
    let a0 = skip_spaces_from(line, 0);
    let a1 = skip_word_from(line, a0);
    let b0 = skip_spaces_from(line, a1);
    let b1 = skip_word_from(line, b0);
    let c0 = skip_spaces_from(line, b1);
    let c1 = skip_word_from(line, c0);
    let end = skip_spaces_from(line, c1);
    if !(a0 < a1 && b0 < b1 && c0 < c1 && end == line.len()) {
        return Err(LoadError::InvalidVersionLine);
    }
    let version: [u8; 4] = [0x76, 0x31, 0x2e, 0x30];
    assert(version@ =~= tag_version());
    let word = slice_subrange(line, b0, b1);
    if !(word.len() == 4 && has_prefix(word, version.as_slice())) {
        assert(word@.subrange(0, 4) =~= word@ || word@.len() != 4);
        return Err(LoadError::InvalidVersion);
    }
    assert(word@.subrange(0, 4) =~= word@);
    let halt = slice_subrange(line, c0, c1);
    if hex_prefixed(halt) {
        match parse_number(slice_subrange(halt, 2, halt.len()), 16) {
            Some(address) => Ok(address),
            None => Err(LoadError::InvalidLiteral),
        }
    } else {
        Err(LoadError::InvalidLiteral)
    }
}

impl HackEngine {
    /// Stores a word at the cursor of the current section and moves the cursor on.
    fn load_word(&mut self, progress: &mut LoadProgress, word: u16) -> (r: Result<(), LoadError>)
        ensures
            match store_word(LoadState { engine: old(self)@, progress: *old(progress) }, word) {
                Ok(st) => {
                    &&& r == Ok::<(), LoadError>(())
                    &&& final(self)@ == st.engine
                    &&& *final(progress) == st.progress
                },
                Err(e) => r == Err::<(), LoadError>(e),
            },
    {
        let at = progress.cursor;
        match progress.target {
            LoadTarget::Unset => {
                return Err(LoadError::NoTarget);
            },
            LoadTarget::Ram => {
                if at >= MEMORY_SIZE {
                    return Err(LoadError::AddressOutOfRange);
                }
                self.ram[at as usize] = word;
            },
            LoadTarget::Rom => {
                if at >= MEMORY_SIZE {
                    return Err(LoadError::AddressOutOfRange);
                }
                self.rom[at as usize] = word;
            },
        }
        progress.cursor = at + 1;
        Ok(())
    }

    /// Applies one line, without the white space at its ends, to the load.
    fn load_line(&mut self, progress: &mut LoadProgress, line: &[u8]) -> (r: Result<
        (),
        LoadError,
    >)
        ensures
            match apply_line(LoadState { engine: old(self)@, progress: *old(progress) }, line@) {
                Ok(st) => {
                    &&& r == Ok::<(), LoadError>(())
                    &&& final(self)@ == st.engine
                    &&& *final(progress) == st.progress
                },
                Err(e) => r == Err::<(), LoadError>(e),
            },
    {
        if line.len() == 0 {
            return Ok(());
        }
        let comment: [u8; 2] = [0x2f, 0x2f];
        assert(comment@ =~= tag_comment());
        if let Format::Unknown = progress.format {
            let hackem: [u8; 6] = [0x68, 0x61, 0x63, 0x6b, 0x65, 0x6d];
            assert(hackem@ =~= tag_hackem());
            if has_prefix(line, hackem.as_slice()) {
                match read_header(line) {
                    Ok(halt) => {
                        self.halt_addr = halt;
                        progress.format = Format::Hackem;
                        return Ok(());
                    },
                    Err(e) => {
                        return Err(e);
                    },
                }
            }
            progress.format = Format::Raw;
            progress.target = LoadTarget::Rom;
        }
        if has_prefix(line, comment.as_slice()) {
            return Ok(());
        }
        if let Format::Raw = progress.format {
            if line.len() != 16 {
                return Err(LoadError::InvalidLiteral);
            }
            return match parse_number(line, 2) {
                Some(word) => self.load_word(progress, word),
                None => Err(LoadError::InvalidLiteral),
            };
        }
        let ram: [u8; 4] = [0x52, 0x41, 0x4d, 0x40];
        let rom: [u8; 4] = [0x52, 0x4f, 0x4d, 0x40];
        assert(ram@ =~= tag_ram());
        assert(rom@ =~= tag_rom());
        let to_ram = has_prefix(line, ram.as_slice());
        if to_ram || has_prefix(line, rom.as_slice()) {
            return match parse_number(slice_subrange(line, 4, line.len()), 16) {
                Some(address) => {
                    progress.target = if to_ram { LoadTarget::Ram } else { LoadTarget::Rom };
                    progress.cursor = address;
                    Ok(())
                },
                None => Err(LoadError::InvalidLiteral),
            };
        }
        if line.len() != 4 {
            return Err(LoadError::InvalidLiteral);
        }
        match parse_number(line, 16) {
            Some(word) => self.load_word(progress, word),
            None => Err(LoadError::InvalidLiteral),
        }
    }

    /// Loads a program text, given as bytes, into the images of the engine.
    pub fn load_bytes(&mut self, text: &[u8]) -> (r: Result<(), LoadError>)
        ensures
            loaded(old(self)@, text@, final(self)@, r),
    {
        let mut progress = LoadProgress {
            format: Format::Unknown,
            target: LoadTarget::Unset,
            cursor: 0,
        };
        let mut pos: usize = 0;
        loop
            invariant
                pos <= text@.len(),
                load_from(text@, pos as int, LoadState { engine: self@, progress }) == load_from(
                    text@,
                    0,
                    LoadState { engine: old(self)@, progress: start_of_load() },
                ),
            decreases text@.len() - pos,
        {
            let end = find_line_end(text, pos);
            let line = trim(slice_subrange(text, pos, end));
            match self.load_line(&mut progress, line) {
                Ok(()) => {},
                Err(e) => {
                    return Err(e);
                },
            }
            if end >= text.len() {
                return Ok(());
            }
            pos = end + 1;
        }
    }

    /// Loads a program text into the images of the engine. The text is read
    /// as its UTF-8 bytes.
    pub fn load_file(&mut self, bin: &str) -> (r: Result<(), LoadError>)
        ensures
            loaded(old(self)@, bin.spec_bytes(), final(self)@, r),
    {
        self.load_bytes(bin.as_bytes())
    }
}

} // verus!
