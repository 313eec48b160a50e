use vstd::prelude::*;

verus! {

/// Pixels in one row of the display.
pub const DISPLAY_WIDTH: usize = 64;

/// Rows of the display.
pub const DISPLAY_HEIGHT: usize = 32;

/// Pixels of the display, which is held row by row: pixel `(x, y)` is entry `y * 64 + x`.
pub const DISPLAY_SIZE: usize = 2048;

/// Whether bit `col` of a sprite row is set, bit 0 being the most significant,
/// which is the leftmost pixel of the row.
pub open spec fn sprite_bit(row_byte: u8, col: int) -> bool {
    row_byte & (0x80u8 >> (col as u8)) != 0
}

/// The display entry on which bit `col` of row `row` of a sprite lands when the sprite
/// is drawn at `(vx, vy)`.  The sum wraps as one flattened index: a sprite that runs
/// over the right edge goes on in the next row, and one that runs past the last
/// entry goes on at the first.
pub open spec fn pixel_index(vx: int, vy: int, row: int, col: int) -> int {
    (vx + col + (vy + row) * 64) % 2048
}

/// How far display entry `p` lies behind the entry of the sprite's first bit,
/// counted along the flattened, wrapping display.
pub open spec fn sprite_offset(vx: int, vy: int, p: int) -> int {
    (p - vx - vy * 64) % 2048
}

/// Whether a set bit of the sprite lands on display entry `p`.  The sprite's rows are
/// `rows[0]`, `rows[1]`, ..., and it is drawn at `(vx, vy)`.
///
/// Bit `col` of row `row` lies `row * 64 + col` entries behind the first bit, and no
/// two bits of a sprite share that distance, so the one bit that can land on `p` is
/// read off the distance of `p`.
pub open spec fn sprite_covers(rows: Seq<u8>, vx: int, vy: int, p: int) -> bool {
    let offset = sprite_offset(vx, vy, p);
    let row = offset / 64;
    let col = offset % 64;
    row < rows.len() && col < 8 && sprite_bit(rows[row], col)
}

/// The display after a sprite has been drawn onto it: each entry on which a set bit
/// lands is flipped, every other entry is kept.
pub open spec fn draw(display: Seq<bool>, rows: Seq<u8>, vx: int, vy: int) -> Seq<bool> {
    Seq::new(display.len(), |p: int| display[p] != sprite_covers(rows, vx, vy, p))
}

/// Whether drawing the sprite turns off a pixel that was on.
pub open spec fn collides(display: Seq<bool>, rows: Seq<u8>, vx: int, vy: int) -> bool {
    exists|p: int| 0 <= p < display.len() && #[trigger] display[p] && sprite_covers(rows, vx, vy, p)
}

/// The bit at `(row, col)` lands on `pixel_index(vx, vy, row, col)` and on no other entry.
pub proof fn lemma_bit_lands(vx: int, vy: int, row: int, col: int, p: int)
    requires
        0 <= vx < 256,
        0 <= vy < 256,
        0 <= row < 16,
        0 <= col < 8,
        0 <= p < 2048,
    ensures
        (sprite_offset(vx, vy, p) == row * 64 + col) <==> p == pixel_index(vx, vy, row, col),
{
}

} // verus!
