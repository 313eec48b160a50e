use vstd::prelude::*;

verus! {

/// Number of bytes in the whole built-in font: sixteen glyphs.
pub const FONT_SIZE: usize = 80;

/// The built-in font: one five-byte sprite for each hexadecimal digit, in order.
/// Only the high nibble of each byte is used, so a glyph is four pixels wide.
pub const FONTSET: [u8; FONT_SIZE] = [
    0xF0, 0x90, 0x90, 0x90, 0xF0,  // 0
    0x20, 0x60, 0x20, 0x20, 0x70,  // 1
    0xF0, 0x10, 0xF0, 0x80, 0xF0,  // 2
    0xF0, 0x10, 0xF0, 0x10, 0xF0,  // 3
    0x90, 0x90, 0xF0, 0x10, 0x10,  // 4
    0xF0, 0x80, 0xF0, 0x10, 0xF0,  // 5
    0xF0, 0x80, 0xF0, 0x90, 0xF0,  // 6
    0xF0, 0x10, 0x20, 0x40, 0x40,  // 7
    0xF0, 0x90, 0xF0, 0x90, 0xF0,  // 8
    0xF0, 0x90, 0xF0, 0x10, 0xF0,  // 9
    0xF0, 0x90, 0xF0, 0x90, 0x90,  // A
    0xE0, 0x90, 0xE0, 0x90, 0xE0,  // B
    0xF0, 0x80, 0x80, 0x80, 0xF0,  // C
    0xE0, 0x90, 0x90, 0x90, 0xE0,  // D
    0xF0, 0x80, 0xF0, 0x80, 0xF0,  // E
    0xF0, 0x80, 0xF0, 0x80, 0x80,  // F
];

/// The font as a sequence of bytes.
pub open spec fn font() -> Seq<u8> {
    FONTSET@
}

/// The five bytes of the glyph for `digit`.
pub open spec fn glyph(digit: int) -> Seq<u8>
    recommends
        0 <= digit < 16,
{
    font().subrange(5 * digit, 5 * digit + 5)
}

/// Whether the font lies where glyph lookup expects it: at the bottom of memory.
pub open spec fn font_installed(memory: Seq<u8>) -> bool {
    memory.len() >= 80 && memory.subrange(0, 80) == font()
}

} // verus!
