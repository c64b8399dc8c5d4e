use hackem::disassemble::Disassembler;

#[test]
fn disassemble_address_loads() {
    assert_eq!(Disassembler::disassemble(0x0000), "@0000");
    assert_eq!(Disassembler::disassemble(0x0002), "@0002");
    assert_eq!(Disassembler::disassemble(0x7fff), "@7fff");
    assert_eq!(Disassembler::disassemble(0x1abc), "@1abc");
}

#[test]
fn disassemble_compute_instructions() {
    assert_eq!(Disassembler::disassemble(0xec10), "D=A");
    assert_eq!(Disassembler::disassemble(0xe308), "M=D");
    assert_eq!(Disassembler::disassemble(0xe307), "D;JMP");
    assert_eq!(Disassembler::disassemble(0xea87), "0;JMP");
    assert_eq!(Disassembler::disassemble(0xe301), "D;JGT");
    assert_eq!(Disassembler::disassemble(0xefd0), "D=1");
    assert_eq!(Disassembler::disassemble(0xee90), "D=-1");
    assert_eq!(Disassembler::disassemble(0xfc10), "D=M");
    assert_eq!(Disassembler::disassemble(0xf088), "M=D+M");
    assert_eq!(Disassembler::disassemble(0xe038), "ADM=D&A");
    assert_eq!(Disassembler::disassemble(0xfdd8), "DM=M+1");
    assert_eq!(Disassembler::disassemble(0xe540), "D|A");
    assert_eq!(Disassembler::disassemble(0x8c10), "D=A");
}

#[test]
fn disassemble_every_jump() {
    let names = ["", ";JGT", ";JEQ", ";JGE", ";JLT", ";JNE", ";JLE", ";JMP"];
    for j in 0..8u16 {
        assert_eq!(Disassembler::disassemble(0xe300 | j), format!("D{}", names[j as usize]));
        assert_eq!(Disassembler::generate_jump_str(j), names[j as usize].trim_start_matches(';'));
    }
}

#[test]
fn disassemble_every_destination() {
    let names = ["", "M", "D", "DM", "A", "AM", "AD", "ADM"];
    for d in 0..8u16 {
        assert_eq!(Disassembler::generate_dest_str(d), names[d as usize]);
    }
    assert_eq!(Disassembler::generate_dest_str(0xfff8), "");
}

#[test]
fn disassemble_every_computation() {
    let table: [(u16, &str); 28] = [
        (0x2a, "0"), (0x3f, "1"), (0x3a, "-1"), (0x0c, "D"), (0x30, "A"), (0x0d, "!D"),
        (0x31, "!A"), (0x0f, "-D"), (0x33, "-A"), (0x1f, "D+1"), (0x37, "A+1"), (0x0e, "D-1"),
        (0x32, "A-1"), (0x02, "D+A"), (0x13, "D-A"), (0x07, "A-D"), (0x00, "D&A"), (0x15, "D|A"),
        (0x70, "M"), (0x71, "!M"), (0x73, "-M"), (0x77, "M+1"), (0x72, "M-1"), (0x42, "D+M"),
        (0x53, "D-M"), (0x47, "M-D"), (0x40, "D&M"), (0x55, "D|M"),
    ];
    for (code, text) in table {
        assert_eq!(Disassembler::generate_comp_str(code), text);
    }
}

#[test]
fn disassemble_unknown_computation_is_a_placeholder() {
    assert_eq!(Disassembler::generate_comp_str(0x01), "?");
    assert_eq!(Disassembler::generate_comp_str(0x7f), "?");
    assert_eq!(Disassembler::generate_comp_str(0x80), "?");
    assert_eq!(Disassembler::disassemble(0xe04a), "M=?;JEQ");
}

#[test]
fn disassembler_can_be_made() {
    let _d = Disassembler::new();
}
