//! The memory-mapped screen: 512 by 256 pixels in the RAM words from 0x4000
//! to 0x5fff, sixteen pixels to a word, row after row.

use vstd::prelude::*;

use crate::engine::{HackEngine, SCREEN_START};

verus! {

/// Pixels in a row of the screen.
pub const SCREEN_WIDTH: u16 = 512;

/// Rows of the screen.
pub const SCREEN_HEIGHT: u16 = 256;

/// Words in a row of the screen.
pub const WORDS_PER_ROW: u16 = 32;

/// Address of the word that holds the pixel in column `column` of row `row`.
pub open spec fn pixel_address(column: u16, row: u16) -> int {
    SCREEN_START + row * WORDS_PER_ROW + column / 16
}

/// Whether the pixel in column `column` of row `row` is lit: bit
/// `column % 16` of its word is set.
pub open spec fn pixel_lit(ram: Seq<u16>, column: u16, row: u16) -> bool {
    (ram[pixel_address(column, row)] >> (column % 16)) & 1 == 1
}

impl HackEngine {
    /// Whether the pixel in column `column` of row `row` is lit. There is
    /// no pixel outside the screen.
    pub fn pixel(&self, column: u16, row: u16) -> (lit: Option<bool>)
        ensures
            lit == if column < SCREEN_WIDTH && row < SCREEN_HEIGHT {
                Some(pixel_lit(self.ram@, column, row))
            } else {
                None
            },
            column < SCREEN_WIDTH && row < SCREEN_HEIGHT ==> SCREEN_START <= pixel_address(
                column,
                row,
            ) < 0x6000,
    {
        if column >= SCREEN_WIDTH || row >= SCREEN_HEIGHT {
            return None;
        }
        let address = SCREEN_START + row * WORDS_PER_ROW + column / 16;
        let word = self.ram[address as usize];
        Some((word >> (column % 16)) & 1 == 1)
    }
}

} // verus!
