//! The disassembler: an instruction word as the text of its mnemonic.

use vstd::prelude::*;
use vstd::string::StringExecFns;

use crate::format::{hex4_text, push_hex4};

verus! {

/// Turns instruction words into mnemonics. It holds no state.
pub struct Disassembler {}

/// What stands for a computation field that names no operation.
pub open spec fn unknown_comp_text() -> Seq<char> {
    "?"@
}

/// The mnemonic of a jump field: empty for 0, which never jumps.
pub open spec fn jump_text(jump: u16) -> Seq<char> {
    if jump == 0x01 {
        "JGT"@
    } else if jump == 0x02 {
        "JEQ"@
    } else if jump == 0x03 {
        "JGE"@
    } else if jump == 0x04 {
        "JLT"@
    } else if jump == 0x05 {
        "JNE"@
    } else if jump == 0x06 {
        "JLE"@
    } else if jump == 0x07 {
        "JMP"@
    } else {
        Seq::empty()
    }
}

/// The letters of a destination field, always in the order A, D, M:
/// bit 2 names A, bit 1 names D, bit 0 names M.
pub open spec fn dest_text(dest: u16) -> Seq<char> {
    let a = if dest & 0x4 != 0 { seq!['A'] } else { Seq::<char>::empty() };
    let d = if dest & 0x2 != 0 { seq!['D'] } else { Seq::<char>::empty() };
    let m = if dest & 0x1 != 0 { seq!['M'] } else { Seq::<char>::empty() };
    a + d + m
}

/// The text of a computation field: bit 6 says that the operand is M, not
/// A, and the six bits below it are the ALU code. A field outside the table
/// is written as `?`.
pub open spec fn comp_text(comp: u16) -> Seq<char> {
    if comp == 0x2a {
        "0"@
    } else if comp == 0x3f {
        "1"@
    } else if comp == 0x3a {
        "-1"@
    } else if comp == 0x0c {
        "D"@
    } else if comp == 0x30 {
        "A"@
    } else if comp == 0x0d {
        "!D"@
    } else if comp == 0x31 {
        "!A"@
    } else if comp == 0x0f {
        "-D"@
    } else if comp == 0x33 {
        "-A"@
    } else if comp == 0x1f {
        "D+1"@
    } else if comp == 0x37 {
        "A+1"@
    } else if comp == 0x0e {
        "D-1"@
    } else if comp == 0x32 {
        "A-1"@
    } else if comp == 0x02 {
        "D+A"@
    } else if comp == 0x13 {
        "D-A"@
    } else if comp == 0x07 {
        "A-D"@
    } else if comp == 0x00 {
        "D&A"@
    } else if comp == 0x15 {
        "D|A"@
    } else if comp == 0x70 {
        "M"@
    } else if comp == 0x71 {
        "!M"@
    } else if comp == 0x73 {
        "-M"@
    } else if comp == 0x77 {
        "M+1"@
    } else if comp == 0x72 {
        "M-1"@
    } else if comp == 0x42 {
        "D+M"@
    } else if comp == 0x53 {
        "D-M"@
    } else if comp == 0x47 {
        "M-D"@
    } else if comp == 0x40 {
        "D&M"@
    } else if comp == 0x55 {
        "D|M"@
    } else {
        unknown_comp_text()
    }
}

/// The mnemonic of an instruction word. A word with the top bit clear is
/// `@` and its low fifteen bits as four hexadecimal digits. Any other word
/// is `dest=` if it has a destination, the computation, and `;jump` if it
/// has a jump.
pub open spec fn disassemble_spec(instruction: u16) -> Seq<char> {
    if instruction >> 15 == 0 {
        seq!['@'] + hex4_text(instruction & 0x7fff, false)
    } else {
        let comp = (instruction >> 6) & 0x7f;
        let dest = (instruction >> 3) & 0x7;
        let jump = instruction & 0x7;
        let head = if dest != 0 { dest_text(dest) + seq!['='] } else { Seq::<char>::empty() };
        let tail = if jump != 0 { seq![';'] + jump_text(jump) } else { Seq::<char>::empty() };
        head + comp_text(comp) + tail
    }
}

impl Disassembler {
    /// A disassembler.
    pub fn new() -> (r: Self)
        ensures
            r == (Disassembler {  }),
    {
        Self {  }
    }

    /// The mnemonic of an instruction word.
    pub fn disassemble(instruction: u16) -> (text: String)
        ensures
            text@ == disassemble_spec(instruction),
    {
        proof {
            reveal_strlit("@");
            reveal_strlit("=");
            reveal_strlit(";");
        }
        if instruction >> 15 == 0 {
            let mut text = String::from_str("@");
            push_hex4(&mut text, instruction & 0x7fff, false);
            assert(text@ =~= disassemble_spec(instruction));
            return text;
        }
        let comp = (instruction >> 6) & 0x7f;
        let dest = (instruction >> 3) & 0x7;
        let jump = instruction & 0x7;
        assert(jump <= 7) by (bit_vector)
            requires
                jump == instruction & 0x7,
        ;
        let mut text = String::new();
        if dest != 0 {
            text.append(Self::generate_dest_str(dest).as_str());
            text.append("=");
        }
        text.append(Self::generate_comp_str(comp).as_str());
        if jump != 0 {
            text.append(";");
            text.append(Self::generate_jump_str(jump).as_str());
        }
        assert(text@ =~= disassemble_spec(instruction));
        text
    }

    /// The mnemonic of a jump field.
    pub fn generate_jump_str(jump: u16) -> (text: String)
        requires
            jump <= 7,
        ensures
            text@ == jump_text(jump),
    {
        proof {
            reveal_strlit("");
        }
        let name =
        if jump == 0x01 {
            "JGT"
        } else if jump == 0x02 {
            "JEQ"
        } else if jump == 0x03 {
            "JGE"
        } else if jump == 0x04 {
            "JLT"
        } else if jump == 0x05 {
            "JNE"
        } else if jump == 0x06 {
            "JLE"
        } else if jump == 0x07 {
            "JMP"
        } else {
            ""
        };
        assert(name@ =~= jump_text(jump));
        String::from_str(name)
    }

    /// The letters of a destination field.
    pub fn generate_dest_str(dest: u16) -> (text: String)
        ensures
            text@ == dest_text(dest),
    {
        proof {
            reveal_strlit("A");
            reveal_strlit("D");
            reveal_strlit("M");
        }
        let mut text = String::new();
        if dest & 0x4 != 0 {
            text.append("A");
        }
        if dest & 0x2 != 0 {
            text.append("D");
        }
        if dest & 0x1 != 0 {
            text.append("M");
        }
        assert(text@ =~= dest_text(dest));
        text
    }

    /// The text of a computation field.
    pub fn generate_comp_str(comp: u16) -> (text: String)
        ensures
            text@ == comp_text(comp),
    {
        let name =
        if comp == 0x2a {
            "0"
        } else if comp == 0x3f {
            "1"
        } else if comp == 0x3a {
            "-1"
        } else if comp == 0x0c {
            "D"
        } else if comp == 0x30 {
            "A"
        } else if comp == 0x0d {
            "!D"
        } else if comp == 0x31 {
            "!A"
        } else if comp == 0x0f {
            "-D"
        } else if comp == 0x33 {
            "-A"
        } else if comp == 0x1f {
            "D+1"
        } else if comp == 0x37 {
            "A+1"
        } else if comp == 0x0e {
            "D-1"
        } else if comp == 0x32 {
            "A-1"
        } else if comp == 0x02 {
            "D+A"
        } else if comp == 0x13 {
            "D-A"
        } else if comp == 0x07 {
            "A-D"
        } else if comp == 0x00 {
            "D&A"
        } else if comp == 0x15 {
            "D|A"
        } else if comp == 0x70 {
            "M"
        } else if comp == 0x71 {
            "!M"
        } else if comp == 0x73 {
            "-M"
        } else if comp == 0x77 {
            "M+1"
        } else if comp == 0x72 {
            "M-1"
        } else if comp == 0x42 {
            "D+M"
        } else if comp == 0x53 {
            "D-M"
        } else if comp == 0x47 {
            "M-D"
        } else if comp == 0x40 {
            "D&M"
        } else if comp == 0x55 {
            "D|M"
        } else {
            "?"
        };
        String::from_str(name)
    }
}

} // verus!
