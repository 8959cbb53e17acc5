//! The built-in glyphs of the sixteen hexadecimal digits.

use vstd::prelude::*;

verus! {

/// The address of the first glyph in memory.
pub const FONT_START: u16 = 0x50;

/// The bytes in one glyph: five rows of eight pixels, of which the left four are
/// used.
pub const GLYPH_SIZE: u16 = 5;

/// The glyphs of `0` to `F`, five bytes each, in order.
pub const FONT: [u8; 80] = [
    0xF0, 0x90, 0x90, 0x90, 0xF0,
    0x20, 0x60, 0x20, 0x20, 0x70,
    0xF0, 0x10, 0xF0, 0x80, 0xF0,
    0xF0, 0x10, 0xF0, 0x10, 0xF0,
    0x90, 0x90, 0xF0, 0x10, 0x10,
    0xF0, 0x80, 0xF0, 0x10, 0xF0,
    0xF0, 0x80, 0xF0, 0x90, 0xF0,
    0xF0, 0x10, 0x20, 0x40, 0x40,
    0xF0, 0x90, 0xF0, 0x90, 0xF0,
    0xF0, 0x90, 0xF0, 0x10, 0xF0,
    0xF0, 0x90, 0xF0, 0x90, 0x90,
    0xE0, 0x90, 0xE0, 0x90, 0xE0,
    0xF0, 0x80, 0x80, 0x80, 0xF0,
    0xE0, 0x90, 0x90, 0x90, 0xE0,
    0xF0, 0x80, 0xF0, 0x80, 0xF0,
    0xF0, 0x80, 0xF0, 0x80, 0x80,
];

/// The address of the glyph of a digit.
pub open spec fn glyph_address(digit: u8) -> int {
    FONT_START + GLYPH_SIZE * digit
}

} // verus!
