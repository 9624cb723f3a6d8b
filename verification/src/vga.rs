//! The VGA text screen: 25 rows of 80 cells, each a character and its
//! colour, written like a terminal (newline, carriage return, wrapping at
//! the right edge, scrolling at the bottom).

use vstd::prelude::*;
use crate::syscall::{VGA_HEIGHT, VGA_WIDTH};
use vstd::string::StringSliceAdditionalSpecFns;

verus! {

/// Number of cells on the screen.
pub const VGA_CELLS: usize = 2000;

/// What a cleared cell holds: a space, grey on black.
pub const BLANK_CELL: (u8, u8) = (0x20, 0x07);

/// The screen's cells and the cursor: where the next character goes, and
/// in which colour.
pub struct VgaBuffer {
    pub row: usize,
    pub col: usize,
    pub color: u8,
    pub cells: Vec<(u8, u8)>,
}

/// The screen holds all its cells and the cursor's column is on it.
pub open spec fn screen_wf(v: &VgaBuffer) -> bool {
    v.cells@.len() == VGA_CELLS && v.col < VGA_WIDTH
}

/// The cells moved up by a row, with a blank bottom row.
pub open spec fn scrolled(c: Seq<(u8, u8)>) -> Seq<(u8, u8)> {
    Seq::new(VGA_CELLS as nat, |i: int| if i < VGA_CELLS - VGA_WIDTH { c[i + VGA_WIDTH] } else { BLANK_CELL })
}

/// A screen of blank cells.
pub open spec fn blank_screen() -> Seq<(u8, u8)> {
    Seq::new(VGA_CELLS as nat, |i: int| BLANK_CELL)
}

/// The cursor and cells after writing `byte` in colour `color` with the
/// cursor at (`row`, `col`): a newline moves to the start of the next row,
/// a carriage return to the start of the row; any other byte is written
/// (after scrolling, at the start of the bottom row, when the cursor is
/// below the screen) and the cursor moves right, to the next row after the
/// last column.
pub open spec fn put(row: int, col: int, cells: Seq<(u8, u8)>, color: u8, byte: u8) -> (int, int, Seq<(u8, u8)>) {
    if byte == 0x0A {
        (row + 1, 0, cells)
    } else if byte == 0x0D {
        (row, 0, cells)
    } else {
        let below = row >= VGA_HEIGHT;
        let r = if below { VGA_HEIGHT - 1 } else { row };
        let c = if below { 0 } else { col };
        let base = if below { scrolled(cells) } else { cells };
        let written = base.update(r * VGA_WIDTH + c, (byte, color));
        if c + 1 < VGA_WIDTH {
            (r, c + 1, written)
        } else {
            (r + 1, 0, written)
        }
    }
}

/// The cursor and cells after writing `bytes` in order (`put`).
pub open spec fn put_all(row: int, col: int, cells: Seq<(u8, u8)>, color: u8, bytes: Seq<u8>) -> (int, int, Seq<(u8, u8)>)
    decreases bytes.len(),
{
    if bytes.len() == 0 {
        (row, col, cells)
    } else {
        let (r, c, x) = put_all(row, col, cells, color, bytes.drop_last());
        put(r, c, x, color, bytes.last())
    }
}

impl VgaBuffer {
    /// A blank screen, cursor at the top left, white on black.
    pub fn new() -> (v: Self)
        ensures
            screen_wf(&v),
            v.row == 0 && v.col == 0 && v.color == 0x0F,
            v.cells@ == blank_screen(),
    {
        let mut cells: Vec<(u8, u8)> = Vec::new();
        let mut i: usize = 0;
        while i < VGA_CELLS
            invariant
                i <= VGA_CELLS,
                cells@ == Seq::new(i as nat, |k: int| BLANK_CELL),
            decreases VGA_CELLS - i,
        {
            cells.push(BLANK_CELL);
            i += 1;
        }
        VgaBuffer { row: 0, col: 0, color: 0x0F, cells }
    }

    /// Blanks every cell and puts the cursor at the top left.
    pub fn clear(&mut self)
        requires
            screen_wf(old(self)),
        ensures
            screen_wf(final(self)),
            final(self).cells@ == blank_screen(),
            final(self).row == 0 && final(self).col == 0 && final(self).color == old(self).color,
    {
        let mut i: usize = 0;
        while i < VGA_CELLS
            invariant
                i <= VGA_CELLS,
                self.cells@.len() == VGA_CELLS,
                forall|k: int| 0 <= k < i ==> #[trigger] self.cells@[k] == BLANK_CELL,
                self.col < VGA_WIDTH,
                self.color == old(self).color,
            decreases VGA_CELLS - i,
        {
            self.cells.set(i, BLANK_CELL);
            i += 1;
        }
        assert(self.cells@ =~= blank_screen());
        self.row = 0;
        self.col = 0;
    }

    /// Moves every row up by one and blanks the bottom row.
    pub fn scroll(&mut self)
        requires
            screen_wf(old(self)),
        ensures
            screen_wf(final(self)),
            final(self).cells@ == scrolled(old(self).cells@),
            final(self).row == old(self).row && final(self).col == old(self).col && final(self).color == old(self).color,
    {
        let ghost c0 = self.cells@;
        let mut i: usize = 0;
        while i < VGA_CELLS - VGA_WIDTH
            invariant
                i <= VGA_CELLS - VGA_WIDTH,
                self.cells@.len() == VGA_CELLS,
                c0.len() == VGA_CELLS,
                forall|k: int| 0 <= k < i ==> #[trigger] self.cells@[k] == c0[k + VGA_WIDTH],
                forall|k: int| i <= k < VGA_CELLS ==> #[trigger] self.cells@[k] == c0[k],
                self.row == old(self).row && self.col == old(self).col && self.color == old(self).color,
                self.col < VGA_WIDTH,
            decreases VGA_CELLS - VGA_WIDTH - i,
        {
            let moved = self.cells[i + VGA_WIDTH];
            self.cells.set(i, moved);
            i += 1;
        }
        let mut j: usize = VGA_CELLS - VGA_WIDTH;
        while j < VGA_CELLS
            invariant
                VGA_CELLS - VGA_WIDTH <= j <= VGA_CELLS,
                self.cells@.len() == VGA_CELLS,
                c0.len() == VGA_CELLS,
                forall|k: int| 0 <= k < VGA_CELLS - VGA_WIDTH ==> #[trigger] self.cells@[k] == c0[k + VGA_WIDTH],
                forall|k: int| VGA_CELLS - VGA_WIDTH <= k < j ==> #[trigger] self.cells@[k] == BLANK_CELL,
                self.row == old(self).row && self.col == old(self).col && self.color == old(self).color,
                self.col < VGA_WIDTH,
            decreases VGA_CELLS - j,
        {
            self.cells.set(j, BLANK_CELL);
            j += 1;
        }
        assert(self.cells@ =~= scrolled(c0));
    }

    /// Writes `byte` at the cursor (`put`).
    pub fn write_byte(&mut self, byte: u8)
        requires
            screen_wf(old(self)),
            old(self).row < usize::MAX,
        ensures
            screen_wf(final(self)),
            final(self).color == old(self).color,
            (final(self).row as int, final(self).col as int, final(self).cells@) == put(
                old(self).row as int,
                old(self).col as int,
                old(self).cells@,
                old(self).color,
                byte,
            ),
    {
        if byte == 0x0A {
            self.row = self.row + 1;
            self.col = 0;
        } else if byte == 0x0D {
            self.col = 0;
        } else {
            if self.row >= VGA_HEIGHT {
                self.scroll();
                self.row = VGA_HEIGHT - 1;
                self.col = 0;
            }
            let offset = self.row * VGA_WIDTH + self.col;
            let cell = (byte, self.color);
            self.cells.set(offset, cell);
            self.col = self.col + 1;
            if self.col >= VGA_WIDTH {
                self.col = 0;
                self.row = self.row + 1;
            }
        }
    }

    /// Writes the bytes of `s` in order (`put_all`).
    pub fn write_str(&mut self, s: &str)
        requires
            screen_wf(old(self)),
            old(self).row + s.spec_bytes().len() < usize::MAX,
        ensures
            screen_wf(final(self)),
            final(self).color == old(self).color,
            (final(self).row as int, final(self).col as int, final(self).cells@) == put_all(
                old(self).row as int,
                old(self).col as int,
                old(self).cells@,
                old(self).color,
                s.spec_bytes(),
            ),
    {
        let bytes = s.as_bytes();
        let mut i: usize = 0;
        while i < bytes.len()
            invariant
                i <= bytes@.len(),
                bytes@ == s.spec_bytes(),
                screen_wf(self),
                self.color == old(self).color,
                self.row <= old(self).row + i,
                old(self).row + s.spec_bytes().len() < usize::MAX,
                (self.row as int, self.col as int, self.cells@) == put_all(
                    old(self).row as int,
                    old(self).col as int,
                    old(self).cells@,
                    old(self).color,
                    bytes@.take(i as int),
                ),
            decreases bytes@.len() - i,
        {
            proof {
                assert(bytes@.take(i + 1).drop_last() =~= bytes@.take(i as int));
            }
            self.write_byte(bytes[i]);
            i += 1;
        }
        proof {
            assert(bytes@.take(i as int) =~= bytes@);
        }
    }
}

} // verus!
