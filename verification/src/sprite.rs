//! Sprites, and how they are drawn onto the frame buffer.

use vstd::prelude::*;

verus! {

/// Mathematical model of a sprite: where it is drawn and its rows, each row
/// one byte whose highest bit is the leftmost pixel.
#[verifier::ext_equal]
pub struct SpriteView {
    pub x: u8,
    pub y: u8,
    pub rows: Seq<u8>,
}

/// Whether the pixel in `column` of a sprite's row is set; column 0 is the
/// highest bit.
pub open spec fn row_bit(row: u8, column: int) -> bool {
    (row >> ((7 - column) as u8)) & 1u8 == 1u8
}

impl SpriteView {
    /// A sprite has at most 15 rows.
    pub open spec fn wf(self) -> bool {
        self.rows.len() <= 15
    }

    /// The column of the sprite that lies over a cell of the frame. The
    /// display wraps around: columns are counted modulo 64.
    pub open spec fn column_at(self, cell: int) -> int {
        (cell % 64 - self.x) % 64
    }

    /// The row of the sprite that lies over a cell of the frame. Rows are
    /// counted modulo 32.
    pub open spec fn row_at(self, cell: int) -> int {
        (cell / 64 - self.y) % 32
    }

    /// Whether the sprite has a set pixel over a cell of the frame.
    pub open spec fn lit(self, cell: int) -> bool {
        &&& self.column_at(cell) < 8
        &&& self.row_at(cell) < self.rows.len()
        &&& row_bit(self.rows[self.row_at(cell)], self.column_at(cell))
    }

    /// The cell under the pixel in `row` and `column` of the sprite.
    pub open spec fn cell_of(self, row: int, column: int) -> int {
        ((self.y + row) % 32) * 64 + (self.x + column) % 64
    }

    /// Whether the drawing loop has passed the cell when it stands before
    /// `column` of `row`.
    pub open spec fn passed(self, cell: int, row: int, column: int) -> bool {
        self.row_at(cell) < row || (self.row_at(cell) == row && self.column_at(cell) < column)
    }
}

/// The frame after the sprite has been drawn on it: every cell under a set
/// pixel of the sprite is flipped.
pub open spec fn blit(frame: Seq<bool>, sprite: SpriteView) -> Seq<bool> {
    Seq::new(frame.len(), |cell: int| frame[cell] != sprite.lit(cell))
}

/// Whether drawing the sprite turns a lit cell of the frame off.
pub open spec fn collides(frame: Seq<bool>, sprite: SpriteView) -> bool {
    exists|cell: int| 0 <= cell < frame.len() && frame[cell] && #[trigger] sprite.lit(cell)
}

/// The sprite of `height` rows that memory holds from `address` on, to be
/// drawn at `(x, y)`. Addresses are taken modulo the size of memory, the
/// height modulo 16.
pub open spec fn sprite_in(memory: Seq<u8>, address: u16, x: u8, y: u8, height: u8) -> SpriteView {
    SpriteView {
        x,
        y,
        rows: Seq::new((height % 16) as nat, |k: int| memory[(address + k) % 4096]),
    }
}

/// Going `offset` steps on from `start` around a ring of 32 and coming back
/// by `start` gives `offset`, and no other place of the ring does.
proof fn lemma_ring_32(start: int, offset: int, place: int)
    requires
        0 <= offset < 32,
        0 <= place < 32,
    ensures
        ((start + offset) % 32 - start) % 32 == offset,
        (place - start) % 32 == offset ==> place == (start + offset) % 32,
{
}

/// The same on a ring of 64.
proof fn lemma_ring_64(start: int, offset: int, place: int)
    requires
        0 <= offset < 64,
        0 <= place < 64,
    ensures
        ((start + offset) % 64 - start) % 64 == offset,
        (place - start) % 64 == offset ==> place == (start + offset) % 64,
{
}

/// Each pixel of a sprite lies over one cell of the frame, and over no other.
pub proof fn lemma_cell_of(sprite: SpriteView, row: int, column: int)
    requires
        0 <= row < 32,
        0 <= column < 64,
    ensures
        0 <= sprite.cell_of(row, column) < 2048,
        sprite.row_at(sprite.cell_of(row, column)) == row,
        sprite.column_at(sprite.cell_of(row, column)) == column,
        forall|cell: int|
            0 <= cell < 2048 && sprite.row_at(cell) == row && sprite.column_at(cell) == column
                ==> cell == sprite.cell_of(row, column),
{
    let down = (sprite.y + row) % 32;
    let across = (sprite.x + column) % 64;
    let target = sprite.cell_of(row, column);
    assert(target == down * 64 + across);
    assert(target / 64 == down && target % 64 == across);
    lemma_ring_32(sprite.y as int, row, down);
    lemma_ring_64(sprite.x as int, column, across);
    assert forall|cell: int|
        0 <= cell < 2048 && sprite.row_at(cell) == row && sprite.column_at(cell)
            == column implies cell == target by {
        lemma_ring_32(sprite.y as int, row, cell / 64);
        lemma_ring_64(sprite.x as int, column, cell % 64);
        assert(cell == (cell / 64) * 64 + cell % 64);
    }
}

/// A sprite read from memory, with the place where it is to be drawn.
pub struct Sprite {
    x: u8,
    y: u8,
    data: Vec<u8>,
}

impl View for Sprite {
    type V = SpriteView;

    closed spec fn view(&self) -> SpriteView {
        SpriteView { x: self.x, y: self.y, rows: self.data@ }
    }
}

impl Sprite {
    /// A sprite with the given rows, to be drawn with its upper left corner
    /// at column `x` and row `y`.
    pub fn new(x: u8, y: u8, data: Vec<u8>) -> (s: Sprite)
        requires
            data@.len() <= 15,
        ensures
            s@ == (SpriteView { x, y, rows: data@ }),
            s@.wf(),
    {
        Sprite { x, y, data }
    }

    /// Draws the sprite onto `frame` by exclusive or, wrapping around at the
    /// edges, and reports whether a lit cell was turned off.
    pub fn draw(&self, frame: &mut [bool; 2048]) -> (collision: bool)
        requires
            self@.wf(),
        ensures
            final(frame)@ == blit(old(frame)@, self@),
            collision == collides(old(frame)@, self@),
    {
        let ghost sprite = self@;
        let ghost before = frame@;
        let mut collision = false;
        let mut i: usize = 0;
        while i < self.data.len()
            invariant
                sprite == self@,
                sprite.wf(),
                before == old(frame)@,
                i <= self.data@.len(),
                forall|cell: int|
                    0 <= cell < 2048 ==> frame@[cell] == (before[cell] != (sprite.lit(cell)
                        && sprite.passed(cell, i as int, 0))),
                collision <==> exists|cell: int|
                    0 <= cell < 2048 && before[cell] && #[trigger] sprite.lit(cell)
                        && sprite.passed(cell, i as int, 0),
            decreases self.data@.len() - i,
        {
            let byte = self.data[i];
            let y_coord: usize = (self.y as usize + i) % 32;
            let mut j: usize = 0;
            while j < 8
                invariant
                    sprite == self@,
                    sprite.wf(),
                    before == old(frame)@,
                    i < self.data@.len(),
                    byte == self.data@[i as int],
                    y_coord == (self.y + i) % 32,
                    j <= 8,
                    forall|cell: int|
                        0 <= cell < 2048 ==> frame@[cell] == (before[cell] != (sprite.lit(cell)
                            && sprite.passed(cell, i as int, j as int))),
                    collision <==> exists|cell: int|
                        0 <= cell < 2048 && before[cell] && #[trigger] sprite.lit(cell)
                            && sprite.passed(cell, i as int, j as int),
                decreases 8 - j,
            {
                let x_coord: usize = (self.x as usize + j) % 64;
                let index: usize = y_coord * 64 + x_coord;
                proof {
                    lemma_cell_of(sprite, i as int, j as int);
                    assert(index == sprite.cell_of(i as int, j as int));
                }
                let ghost earlier = frame@;
                let ghost hit = collision;
                if (byte >> (7 - j as u8)) & 1 == 1 {
                    if frame[index] {
                        collision = true;
                    }
                    frame[index] = !frame[index];
                }
                proof {
                    assert(sprite.lit(index as int) == row_bit(byte, j as int));
                    assert forall|cell: int| 0 <= cell < 2048 implies frame@[cell] == (before[cell]
                        != (sprite.lit(cell) && sprite.passed(cell, i as int, j + 1))) by {
                        if cell != index {
                            assert(sprite.passed(cell, i as int, j + 1) == sprite.passed(
                                cell,
                                i as int,
                                j as int,
                            ));
                        }
                    }
                    if collision {
                        if hit {
                            let cell = choose|cell: int|
                                0 <= cell < 2048 && before[cell] && #[trigger] sprite.lit(cell)
                                    && sprite.passed(cell, i as int, j as int);
                            assert(sprite.lit(cell) && sprite.passed(cell, i as int, j + 1));
                        } else {
                            assert(sprite.lit(index as int) && sprite.passed(
                                index as int,
                                i as int,
                                j + 1,
                            ));
                        }
                    } else {
                        assert forall|cell: int|
                            0 <= cell < 2048 && before[cell] && #[trigger] sprite.lit(cell)
                                implies !sprite.passed(cell, i as int, j + 1) by {
                            if cell != index {
                                assert(sprite.passed(cell, i as int, j + 1) == sprite.passed(
                                    cell,
                                    i as int,
                                    j as int,
                                ));
                            }
                        }
                    }
                }
                j += 1;
            }
            proof {
                assert forall|cell: int| 0 <= cell < 2048 && sprite.lit(cell) implies sprite.passed(
                    cell,
                    i as int,
                    8,
                ) == sprite.passed(cell, i + 1, 0) by {
                    assert(sprite.column_at(cell) < 8);
                }
            }
            i += 1;
        }
        assert(frame@ =~= blit(before, sprite));
        collision
    }
}

} // verus!
