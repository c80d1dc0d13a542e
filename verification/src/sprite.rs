//! Sprites and how they are drawn onto the display.

use vstd::prelude::*;
use crate::consts::{DISPLAY_SIZE, RAM_SIZE};

verus! {

/// Whether the pixel in column `col` of a sprite row is set. Column 0 is the
/// most significant bit of the row's byte.
pub open spec fn sprite_bit(row_bits: u8, col: u8) -> bool {
    row_bits & (0x80u8 >> col) != 0
}

/// The position in the display of the pixel in column `px` of row `py`.
pub open spec fn pixel_index(px: int, py: int) -> int {
    px + 64 * py
}

/// A sprite placed on the display: one byte per row, eight pixels wide,
/// with its top left corner at column `left` and row `top`. Both
/// coordinates wrap around the edges of the display.
pub struct Sprite {
    pub rows: Seq<u8>,
    pub left: u8,
    pub top: u8,
}

impl Sprite {
    /// The column of the sprite that falls on column `px` of the display.
    pub open spec fn col_at(self, px: int) -> int {
        (px - self.left) % 64
    }

    /// The row of the sprite that falls on row `py` of the display.
    pub open spec fn row_at(self, py: int) -> int {
        (py - self.top) % 32
    }

    /// Whether the sprite has a set pixel at column `px` and row `py` of
    /// the display.
    pub open spec fn covers(self, px: int, py: int) -> bool {
        &&& self.col_at(px) < 8
        &&& self.row_at(py) < self.rows.len()
        &&& sprite_bit(self.rows[self.row_at(py)], self.col_at(px) as u8)
    }

    /// Whether the sprite has a set pixel at position `p` of the display.
    pub open spec fn hits(self, p: int) -> bool {
        self.covers(p % 64, p / 64)
    }

    /// Whether drawing the sprite turns off a pixel that is lit in `display`.
    pub open spec fn collides(self, display: Seq<bool>) -> bool {
        exists|p: int| 0 <= p < display.len() && display[p] && #[trigger] self.hits(p)
    }

    /// The display after the sprite was drawn: every pixel the sprite sets
    /// is flipped, every other pixel is kept.
    pub open spec fn drawn_on(self, display: Seq<bool>) -> Seq<bool> {
        Seq::new(display.len(), |p: int| display[p] != self.hits(p))
    }

    /// Whether the sprite hits position `p` with a pixel that comes before
    /// column `col` of row `row`, reading the sprite row by row.
    #[verifier::opaque]
    spec fn hits_before(self, row: int, col: int, p: int) -> bool {
        &&& self.hits(p)
        &&& (self.row_at(p / 64) < row || (self.row_at(p / 64) == row && self.col_at(p % 64) < col))
    }

    /// The position of the display on which column `col` of row `row` of
    /// the sprite falls.
    pub open spec fn position_of(self, row: int, col: int) -> int {
        pixel_index((self.left + col) % 64, (self.top + row) % 32)
    }

    /// Every pixel of the sprite falls on a position of the display, and no
    /// two pixels of a sprite of at most 32 rows fall on the same one: from
    /// the position the pixel is found again.
    pub proof fn lemma_position_of(self, row: int, col: int)
        requires
            0 <= row < 32,
            0 <= col < 64,
        ensures
            0 <= self.position_of(row, col) < DISPLAY_SIZE,
            self.position_of(row, col) % 64 == (self.left + col) % 64,
            self.position_of(row, col) / 64 == (self.top + row) % 32,
            self.col_at(self.position_of(row, col) % 64) == col,
            self.row_at(self.position_of(row, col) / 64) == row,
    {
    }

    /// A position of the display is the one on which the pixel of the
    /// sprite that lies over it falls.
    pub proof fn lemma_position_found(self, p: int)
        requires
            0 <= p < DISPLAY_SIZE,
        ensures
            0 <= self.row_at(p / 64) < 32,
            0 <= self.col_at(p % 64) < 64,
            self.position_of(self.row_at(p / 64), self.col_at(p % 64)) == p,
    {
    }

    /// What drawing the pixel in column `col` of row `row` adds to the
    /// positions hit so far: the position of that pixel if the pixel is
    /// set, and nothing else.
    proof fn lemma_next_pixel(self, row: int, col: int, p: int)
        requires
            0 <= row < self.rows.len(),
            self.rows.len() <= 32,
            0 <= col < 8,
            0 <= p < DISPLAY_SIZE,
        ensures
            p != self.position_of(row, col) ==> self.hits_before(row, col + 1, p)
                == self.hits_before(row, col, p),
            p == self.position_of(row, col) ==> !self.hits_before(row, col, p)
                && self.hits_before(row, col + 1, p) == sprite_bit(self.rows[row], col as u8),
    {
        reveal(Sprite::hits_before);
        self.lemma_position_of(row, col);
        self.lemma_position_found(p);
    }

    /// Past the last column of a row, the next row begins.
    proof fn lemma_next_row(self, row: int, p: int)
        ensures
            self.hits_before(row, 8, p) == self.hits_before(row + 1, 0, p),
    {
        reveal(Sprite::hits_before);
    }

    /// Before the first pixel nothing is hit; past the last row everything
    /// that the sprite hits is.
    proof fn lemma_first_and_last(self, p: int)
        ensures
            !self.hits_before(0, 0, p),
            self.hits_before(self.rows.len() as int, 0, p) == self.hits(p),
    {
        reveal(Sprite::hits_before);
    }
}

/// Draws the sprite held in the `height` bytes of `ram` from `start` onto
/// `display` at column `left` and row `top`, and tells whether a lit pixel
/// was turned off.
pub fn draw_sprite(
    display: &mut [bool; DISPLAY_SIZE],
    ram: &[u8; RAM_SIZE],
    start: usize,
    height: u8,
    left: u8,
    top: u8,
) -> (collision: bool)
    requires
        height < 16,
        start + height <= RAM_SIZE,
    ensures
        final(display)@ == (Sprite {
            rows: ram@.subrange(start as int, start + height),
            left,
            top,
        }).drawn_on(old(display)@),
        collision == (Sprite {
            rows: ram@.subrange(start as int, start + height),
            left,
            top,
        }).collides(old(display)@),
    no_unwind
{
    let ghost before = display@;
    let ghost sprite = Sprite { rows: ram@.subrange(start as int, start + height), left, top };
    let ghost mut witness: int = 0;
    let mut flipped = false;
    let mut row: u8 = 0;
    proof {
        assert forall|p: int| 0 <= p < DISPLAY_SIZE implies !#[trigger] sprite.hits_before(
            0,
            0,
            p,
        ) by {
            sprite.lemma_first_and_last(p);
        }
    }
    while row < height
        invariant
            height < 16,
            start + height <= RAM_SIZE,
            row <= height,
            before.len() == DISPLAY_SIZE,
            sprite == (Sprite { rows: ram@.subrange(start as int, start + height), left, top }),
            forall|p: int|
                0 <= p < DISPLAY_SIZE ==> display@[p] == (before[p] != #[trigger] sprite.hits_before(
                    row as int,
                    0,
                    p,
                )),
            flipped ==> 0 <= witness < DISPLAY_SIZE && before[witness] && sprite.hits_before(
                row as int,
                0,
                witness,
            ),
            !flipped ==> forall|p: int|
                0 <= p < DISPLAY_SIZE && before[p] ==> !#[trigger] sprite.hits_before(
                    row as int,
                    0,
                    p,
                ),
        decreases height - row,
    {
        let pixels: u8 = ram[start + row as usize];
        let mut col: u8 = 0;
        while col < 8
            invariant
                row < height,
                height < 16,
                col <= 8,
                before.len() == DISPLAY_SIZE,
                sprite.rows.len() == height,
                sprite.left == left,
                sprite.top == top,
                pixels == sprite.rows[row as int],
                forall|p: int|
                    0 <= p < DISPLAY_SIZE ==> display@[p] == (before[p]
                        != #[trigger] sprite.hits_before(row as int, col as int, p)),
                flipped ==> 0 <= witness < DISPLAY_SIZE && before[witness] && sprite.hits_before(
                    row as int,
                    col as int,
                    witness,
                ),
                !flipped ==> forall|p: int|
                    0 <= p < DISPLAY_SIZE && before[p] ==> !#[trigger] sprite.hits_before(
                        row as int,
                        col as int,
                        p,
                    ),
            decreases 8 - col,
        {
            let px: usize = (left as usize + col as usize) % 64;
            let py: usize = (top as usize + row as usize) % 32;
            let idx: usize = px + 64 * py;
            proof {
                sprite.lemma_position_of(row as int, col as int);
                assert(idx == sprite.position_of(row as int, col as int));
                assert forall|p: int| 0 <= p < DISPLAY_SIZE implies (p != idx
                    ==> #[trigger] sprite.hits_before(row as int, col + 1, p)
                    == sprite.hits_before(row as int, col as int, p)) && (p == idx
                    ==> !sprite.hits_before(row as int, col as int, p) && sprite.hits_before(
                    row as int,
                    col + 1,
                    p,
                ) == sprite_bit(pixels, col)) by {
                    sprite.lemma_next_pixel(row as int, col as int, p);
                }
                if flipped {
                    sprite.lemma_next_pixel(row as int, col as int, witness);
                }
            }
            if pixels & (0x80u8 >> col) != 0 {
                if display[idx] {
                    flipped = true;
                    proof {
                        witness = idx as int;
                    }
                }
                display[idx] = !display[idx];
            }
            proof {
                if flipped {
                    assert(sprite.hits_before(row as int, col + 1, witness));
                }
            }
            col += 1;
        }
        proof {
            assert forall|p: int| 0 <= p < DISPLAY_SIZE implies sprite.hits_before(
                row as int,
                8,
                p,
            ) == #[trigger] sprite.hits_before(row + 1, 0, p) by {
                sprite.lemma_next_row(row as int, p);
            }
        }
        row += 1;
    }
    proof {
        assert forall|p: int| 0 <= p < DISPLAY_SIZE implies sprite.hits_before(
            height as int,
            0,
            p,
        ) == #[trigger] sprite.hits(p) by {
            sprite.lemma_first_and_last(p);
        }
        assert(display@ =~= sprite.drawn_on(before));
    }
    flipped
}

} // verus!
