//! The built-in hexadecimal glyph bitmaps kept in low memory.

use vstd::prelude::*;

verus! {

/// Number of bytes in the glyph table: sixteen glyphs of five rows each.
pub const FONTSET_SIZE: usize = 80;

/// Rows in one glyph.
pub const GLYPH_HEIGHT: u16 = 5;

/// The glyph table as a sequence of bytes: glyph `d` occupies the five bytes
/// starting at `5 * d`, one byte per row, the high nibble holding the pixels.
pub open spec fn glyph_table() -> Seq<u8> {
    seq![
        0xF0u8, 0x90u8, 0x90u8, 0x90u8, 0xF0u8,
        0x20u8, 0x60u8, 0x20u8, 0x20u8, 0x70u8,
        0xF0u8, 0x10u8, 0xF0u8, 0x80u8, 0xF0u8,
        0xF0u8, 0x10u8, 0xF0u8, 0x10u8, 0xF0u8,
        0x90u8, 0x90u8, 0xF0u8, 0x10u8, 0x10u8,
        0xF0u8, 0x80u8, 0xF0u8, 0x10u8, 0xF0u8,
        0xF0u8, 0x80u8, 0xF0u8, 0x90u8, 0xF0u8,
        0xF0u8, 0x10u8, 0x20u8, 0x40u8, 0x40u8,
        0xF0u8, 0x90u8, 0xF0u8, 0x90u8, 0xF0u8,
        0xF0u8, 0x90u8, 0xF0u8, 0x10u8, 0xF0u8,
        0xF0u8, 0x90u8, 0xF0u8, 0x90u8, 0x90u8,
        0xE0u8, 0x90u8, 0xE0u8, 0x90u8, 0xE0u8,
        0xF0u8, 0x80u8, 0x80u8, 0x80u8, 0xF0u8,
        0xE0u8, 0x90u8, 0x90u8, 0x90u8, 0xE0u8,
        0xF0u8, 0x80u8, 0xF0u8, 0x80u8, 0xF0u8,
        0xF0u8, 0x80u8, 0xF0u8, 0x80u8, 0x80u8,
    ]
}

/// The glyph table as an array, ready to be copied into memory.
pub fn glyph_bytes() -> (table: [u8; FONTSET_SIZE])
    ensures
        table@ == glyph_table(),
{
    let table: [u8; FONTSET_SIZE] = [
        0xF0, 0x90, 0x90, 0x90, 0xF0,
        0x20, 0x60, 0x20, 0x20, 0x70,
        0xF0, 0x10, 0xF0, 0x80, 0xF0,
        0xF0, 0x10, 0xF0, 0x10, 0xF0,
        0x90, 0x90, 0xF0, 0x10, 0x10,
        0xF0, 0x80, 0xF0, 0x10, 0xF0,
        0xF0, 0x80, 0xF0, 0x90, 0xF0,
        0xF0, 0x10, 0x20, 0x40, 0x40,
        0xF0, 0x90, 0xF0, 0x90, 0xF0,
        0xF0, 0x90, 0xF0, 0x10, 0xF0,
        0xF0, 0x90, 0xF0, 0x90, 0x90,
        0xE0, 0x90, 0xE0, 0x90, 0xE0,
        0xF0, 0x80, 0x80, 0x80, 0xF0,
        0xE0, 0x90, 0x90, 0x90, 0xE0,
        0xF0, 0x80, 0xF0, 0x80, 0xF0,
        0xF0, 0x80, 0xF0, 0x80, 0x80,
    ];
    assert(table@ =~= glyph_table());
    table
}

} // verus!
