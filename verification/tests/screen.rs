use hackem::engine::HackEngine;
use hackem::screen::{SCREEN_HEIGHT, SCREEN_WIDTH, WORDS_PER_ROW};

#[test]
fn pixels_are_bits_of_the_screen_words() {
    let mut cpu = HackEngine::new();
    assert_eq!(cpu.pixel(0, 0), Some(false));
    cpu.ram[0x4000] = 0x0001;
    assert_eq!(cpu.pixel(0, 0), Some(true));
    assert_eq!(cpu.pixel(1, 0), Some(false));
    cpu.ram[0x4000] = 0x8000;
    assert_eq!(cpu.pixel(15, 0), Some(true));
    assert_eq!(cpu.pixel(0, 0), Some(false));
    assert_eq!(cpu.pixel(16, 0), Some(false));
    cpu.ram[0x4001] = 0x0002;
    assert_eq!(cpu.pixel(17, 0), Some(true));
    cpu.ram[0x4000 + 32] = 0x0004;
    assert_eq!(cpu.pixel(2, 1), Some(true));
    assert_eq!(cpu.pixel(2, 0), Some(false));
    cpu.ram[0x5fff] = 0x8000;
    assert_eq!(cpu.pixel(511, 255), Some(true));
    assert_eq!(cpu.pixel(510, 255), Some(false));
    cpu.ram[0x4000 + 100 * 32 + 7] = 1 << 9;
    assert_eq!(cpu.pixel(7 * 16 + 9, 100), Some(true));
}

#[test]
fn there_is_no_pixel_outside_the_screen() {
    let mut cpu = HackEngine::new();
    cpu.ram[0x6000] = 0xffff;
    cpu.ram[0x3fff] = 0xffff;
    assert_eq!(cpu.pixel(512, 0), None);
    assert_eq!(cpu.pixel(0, 256), None);
    assert_eq!(cpu.pixel(0xffff, 0xffff), None);
    assert_eq!((SCREEN_WIDTH, SCREEN_HEIGHT, WORDS_PER_ROW), (512, 256, 32));
}

#[test]
fn every_pixel_follows_its_word() {
    let mut cpu = HackEngine::new();
    for i in 0..0x2000usize {
        cpu.ram[0x4000 + i] = (i as u16).wrapping_mul(40503) ^ 0x5a5a;
    }
    for row in 0..256u16 {
        for column in 0..512u16 {
            let word = cpu.ram[0x4000 + (row as usize) * 32 + (column as usize) / 16];
            assert_eq!(cpu.pixel(column, row), Some(word & (1 << (column % 16)) != 0));
        }
    }
}
