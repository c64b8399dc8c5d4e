use hackem::code_loader::LoadError;
use hackem::engine::HackEngine;

const IMAGE: &str = r#"hackem v1.0 0x0000
ROM@0000
0002
8c10
0011
8308
000a
8304
0003
8c10
0010
8308
000a
8307
RAM@0000
1234
2345
RAM@3333
abcd
ffff"#;

#[test]
fn code_loader_test_load_file() {
    let binfile = IMAGE;

    let mut hack = HackEngine::new();
    hack.load_file(binfile).unwrap();

    assert_eq!(hack.rom[0], 0x0002);
    assert_eq!(hack.rom[1], 0x8c10);
}

#[test]
fn load_stores_ram_sections() {
    let mut hack = HackEngine::new();
    hack.load_file(IMAGE).unwrap();
    assert_eq!(hack.ram[0], 0x1234);
    assert_eq!(hack.ram[1], 0x2345);
    assert_eq!(hack.ram[0x3333], 0xabcd);
    assert_eq!(hack.ram[0x3334], 0xffff);
    assert_eq!(hack.rom[11], 0x8307);
    assert_eq!(hack.halt_addr, 0);
}

#[test]
fn load_round_trip_leaves_other_cells_zero() {
    let rom: Vec<u16> = (0..300u16).map(|i| i.wrapping_mul(211).wrapping_add(7)).collect();
    let ram: Vec<u16> = (0..50u16).map(|i| 0xffff - i).collect();
    let mut text = String::from("hackem v1.0 0x0000\nROM@0000\n");
    for w in &rom {
        text.push_str(&format!("{:04x}\n", w));
    }
    text.push_str("RAM@0000\n");
    for w in &ram {
        text.push_str(&format!("{:04x}\n", w));
    }
    let mut hack = HackEngine::new();
    hack.load_file(&text).unwrap();
    for i in 0..0x8000usize {
        let want_rom = if i < rom.len() { rom[i] } else { 0 };
        let want_ram = if i < ram.len() { ram[i] } else { 0 };
        assert_eq!(hack.rom[i], want_rom);
        assert_eq!(hack.ram[i], want_ram);
    }
    assert_eq!(hack.pc, 0);
    assert_eq!(hack.a, 0);
    assert_eq!(hack.d, 0);
}

#[test]
fn load_reads_halt_address() {
    let mut hack = HackEngine::new();
    hack.load_file("hackem v1.0 0x01fe\nROM@0010\nBEEF\n").unwrap();
    assert_eq!(hack.halt_addr, 0x01fe);
    assert_eq!(hack.rom[0x10], 0xbeef);
    let mut upper = HackEngine::new();
    upper.load_file("hackem   v1.0\t0X2a").unwrap();
    assert_eq!(upper.halt_addr, 0x2a);
}

#[test]
fn load_skips_blanks_and_comments() {
    let mut hack = HackEngine::new();
    hack.load_file("\n  \r\nhackem v1.0 0x0000\r\n// a comment\n\nROM@0002\n  0007  \n//0008\n0009\n").unwrap();
    assert_eq!(hack.rom[2], 7);
    assert_eq!(hack.rom[3], 9);
    assert_eq!(hack.rom[4], 0);
}

#[test]
fn load_raw_image() {
    let mut hack = HackEngine::new();
    hack.load_file("// raw\n0000000000000010\n1000110000010000\n\n1110101010000111\n").unwrap();
    assert_eq!(hack.rom[0], 0x0002);
    assert_eq!(hack.rom[1], 0x8c10);
    assert_eq!(hack.rom[2], 0xea87);
    assert_eq!(hack.rom[3], 0);
    assert_eq!(hack.halt_addr, 0);
}

#[test]
fn load_empty_text_changes_nothing() {
    let mut hack = HackEngine::new();
    hack.rom[5] = 9;
    hack.load_file("").unwrap();
    hack.load_file("\n\n   \n").unwrap();
    assert_eq!(hack.rom[5], 9);
}

#[test]
fn load_rejects_bad_header() {
    let mut hack = HackEngine::new();
    assert_eq!(hack.load_file("hackem v1.0"), Err(LoadError::InvalidVersionLine));
    assert_eq!(hack.load_file("hackem v1.0 0x0000 extra"), Err(LoadError::InvalidVersionLine));
    assert_eq!(hack.load_file("hackem v2.0 0x0000"), Err(LoadError::InvalidVersion));
    assert_eq!(hack.load_file("hackem v1.0 0000"), Err(LoadError::InvalidLiteral));
    assert_eq!(hack.load_file("hackem v1.0 0x"), Err(LoadError::InvalidLiteral));
    assert_eq!(hack.load_file("hackem v1.0 0x1ffff"), Err(LoadError::InvalidLiteral));
}

#[test]
fn load_rejects_bad_words() {
    let mut hack = HackEngine::new();
    assert_eq!(hack.load_file("hackem v1.0 0x0000\nROM@0000\n12"), Err(LoadError::InvalidLiteral));
    assert_eq!(hack.load_file("hackem v1.0 0x0000\nROM@0000\n0x12"), Err(LoadError::InvalidLiteral));
    assert_eq!(hack.load_file("hackem v1.0 0x0000\nROM@0000\n00012"), Err(LoadError::InvalidLiteral));
    assert_eq!(hack.load_file("hackem v1.0 0x0000\nROM@zz\n"), Err(LoadError::InvalidLiteral));
    assert_eq!(hack.load_file("hackem v1.0 0x0000\nRAM@\n"), Err(LoadError::InvalidLiteral));
    assert_eq!(hack.load_file("010101"), Err(LoadError::InvalidLiteral));
    assert_eq!(hack.load_file("0000000000000002"), Err(LoadError::InvalidLiteral));
    assert_eq!(hack.load_file("0000000000000001\nhackem v1.0 0x0000"), Err(LoadError::InvalidLiteral));
}

#[test]
fn load_rejects_word_before_section() {
    let mut hack = HackEngine::new();
    assert_eq!(hack.load_file("hackem v1.0 0x0000\n1234\n"), Err(LoadError::NoTarget));
}

#[test]
fn load_rejects_address_out_of_range() {
    let mut hack = HackEngine::new();
    assert_eq!(hack.load_file("hackem v1.0 0x0000\nRAM@8000\n1234\n"), Err(LoadError::AddressOutOfRange));
    assert_eq!(hack.load_file("hackem v1.0 0x0000\nROM@7fff\n1234\n5678\n"), Err(LoadError::AddressOutOfRange));
    assert_eq!(hack.rom[0x7fff], 0x1234);
    let mut raw = String::new();
    for _ in 0..0x8001 {
        raw.push_str("0000000000000001\n");
    }
    assert_eq!(hack.load_file(&raw), Err(LoadError::AddressOutOfRange));
    let mut fits = HackEngine::new();
    assert_eq!(fits.load_file("hackem v1.0 0x0000\nROM@ffff\n"), Ok(()));
}

#[test]
fn load_bytes_agrees_with_load_file() {
    let mut a = HackEngine::new();
    let mut b = HackEngine::new();
    a.load_file(IMAGE).unwrap();
    b.load_bytes(IMAGE.as_bytes()).unwrap();
    assert!(a.rom == b.rom);
    assert!(a.ram == b.ram);
}

#[test]
fn load_error_messages() {
    assert_eq!(LoadError::InvalidVersionLine.message(), "Invalid version line");
    assert_eq!(LoadError::InvalidVersion.message(), "Invalid version");
    assert_eq!(LoadError::InvalidLiteral.message(), "Invalid literal");
    assert_eq!(LoadError::NoTarget.message(), "No target specified");
    assert_eq!(LoadError::AddressOutOfRange.message(), "Address out of range");
}
