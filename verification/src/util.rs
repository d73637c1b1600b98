//! Constants shared by the whole machine, and single-bit access to a byte.
use vstd::prelude::*;

verus! {

/// Number of pixel columns of the display.
pub const DISPLAY_WIDTH: usize = 64;

/// Number of pixel rows of the display.
pub const DISPLAY_HEIGHT: usize = 32;

/// Number of bytes that the built-in glyphs occupy.
pub const FONT_BYTES: usize = 80;

/// Number of bytes that one glyph occupies.
pub const GLYPH_BYTES: usize = 5;

/// The glyphs of the sixteen hexadecimal digits, five bytes each. The high
/// nibble of each byte is one row of a 4x5 bitmap.
pub const FONTS: [u8; 80] = [
    0xF0, 0x90, 0x90, 0x90, 0xF0,
    0x20, 0x60, 0x20, 0x20, 0x70,
    0xF0, 0x10, 0xF0, 0x80, 0xF0,
    0xF0, 0x10, 0xF0, 0x10, 0xF0,
    0x90, 0x90, 0xF0, 0x10, 0x10,
    0xF0, 0x80, 0xF0, 0x10, 0xF0,
    0xF0, 0x80, 0xF0, 0x90, 0xF0,
    0xF0, 0x10, 0x20, 0x40, 0x40,
    0xF0, 0x90, 0xF0, 0x90, 0xF0,
    0xF0, 0x90, 0xF0, 0x10, 0xF0,
    0xF0, 0x90, 0xF0, 0x90, 0x90,
    0xE0, 0x90, 0xE0, 0x90, 0xE0,
    0xF0, 0x80, 0x80, 0x80, 0xF0,
    0xE0, 0x90, 0x90, 0x90, 0xE0,
    0xF0, 0x80, 0xF0, 0x80, 0xF0,
    0xF0, 0x80, 0xF0, 0x80, 0x80,
];

/// Bit `index` of `byte`, counted from the least significant bit: 0 or 1.
pub open spec fn bit_of(byte: u8, index: u8) -> u8 {
    (byte >> index) & 1
}

/// A single bit is 0 or 1.
pub proof fn lemma_bit_is_binary(byte: u8, index: u8)
    ensures
        bit_of(byte, index) <= 1,
{
    assert(((byte >> index) & 1) <= 1) by (bit_vector);
}

/// Reads bit `index` of `byte`, counted from the least significant bit.
pub fn get_bit_val(byte: u8, index: u8) -> (bit: u8)
    requires
        index < 8,
    ensures
        bit == bit_of(byte, index),
        bit <= 1,
{
    proof {
        lemma_bit_is_binary(byte, index);
    }
    (byte >> index) & 1
}

} // verus!
