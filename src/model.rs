//! The mathematical model of a generation: its dimensions and its cells in
//! row-major order, with the update rule and the text of a frame.

use vstd::arithmetic::div_mod::lemma_fundamental_div_mod_converse;
use vstd::prelude::*;

verus! {

/// One generation: `cells[y * width + x]` tells whether the cell at `(x, y)` is alive.
pub struct GridModel {
    pub width: int,
    pub height: int,
    pub cells: Seq<bool>,
}

/// 1 for a live cell, 0 for a dead one.
pub open spec fn count_of(alive: bool) -> int {
    if alive {
        1
    } else {
        0
    }
}

/// The fate of a cell with `n` live neighbours: fewer than two die, more than
/// three die, two or three keep a live cell alive, and exactly three bring a
/// dead cell to life; a dead cell with two live neighbours stays dead.
pub open spec fn life_rule(alive: bool, n: int) -> bool {
    if n < 2 {
        false
    } else if n > 3 {
        false
    } else if alive {
        true
    } else {
        n == 3
    }
}

/// The UTF-8 bytes of a cell's glyph: `x` / `.` in ASCII mode,
/// U+2588 (full block) / U+2591 (light shade) otherwise.
pub open spec fn glyph(alive: bool, ascii: bool) -> Seq<u8> {
    if ascii {
        if alive {
            seq![0x78u8]
        } else {
            seq![0x2eu8]
        }
    } else {
        if alive {
            seq![0xe2u8, 0x96u8, 0x88u8]
        } else {
            seq![0xe2u8, 0x96u8, 0x91u8]
        }
    }
}

impl GridModel {
    /// Positive dimensions and exactly one cell for each coordinate.
    pub open spec fn wf(self) -> bool {
        &&& self.width >= 1
        &&& self.height >= 1
        &&& self.cells.len() == self.width * self.height
    }

    pub open spec fn contains(self, x: int, y: int) -> bool {
        0 <= x < self.width && 0 <= y < self.height
    }

    pub open spec fn index(self, x: int, y: int) -> int {
        y * self.width + x
    }

    /// Whether `(x, y)` holds a live cell; every coordinate outside the space is dead.
    pub open spec fn alive(self, x: int, y: int) -> bool {
        self.contains(x, y) && self.cells[self.index(x, y)]
    }

    /// The number of live cells among the eight neighbours of `(x, y)`.
    pub open spec fn alive_count(self, x: int, y: int) -> int {
        count_of(self.alive(x - 1, y - 1)) + count_of(self.alive(x, y - 1)) + count_of(
            self.alive(x + 1, y - 1),
        ) + count_of(self.alive(x - 1, y)) + count_of(self.alive(x + 1, y)) + count_of(
            self.alive(x - 1, y + 1),
        ) + count_of(self.alive(x, y + 1)) + count_of(self.alive(x + 1, y + 1))
    }

    /// The number of the eight neighbours of `(x, y)` that lie inside the space.
    pub open spec fn neighbours_in_space(self, x: int, y: int) -> int {
        count_of(self.contains(x - 1, y - 1)) + count_of(self.contains(x, y - 1)) + count_of(
            self.contains(x + 1, y - 1),
        ) + count_of(self.contains(x - 1, y)) + count_of(self.contains(x + 1, y)) + count_of(
            self.contains(x - 1, y + 1),
        ) + count_of(self.contains(x, y + 1)) + count_of(self.contains(x + 1, y + 1))
    }

    /// Whether `(x, y)` is alive in the next generation.
    pub open spec fn next_alive(self, x: int, y: int) -> bool {
        life_rule(self.alive(x, y), self.alive_count(x, y))
    }

    /// The next generation: every cell updated from this one at once.
    pub open spec fn next(self) -> GridModel {
        GridModel {
            width: self.width,
            height: self.height,
            cells: Seq::new(
                self.cells.len(),
                |i: int| self.next_alive(i % self.width, i / self.width),
            ),
        }
    }

    /// The glyphs of the first `n` cells of row `y`.
    pub open spec fn row_text(self, ascii: bool, y: int, n: int) -> Seq<u8>
        decreases n,
    {
        if n <= 0 {
            seq![]
        } else {
            self.row_text(ascii, y, n - 1) + glyph(self.alive(n - 1, y), ascii)
        }
    }

    /// The first `n` rows, each followed by a newline.
    pub open spec fn rows_text(self, ascii: bool, n: int) -> Seq<u8>
        decreases n,
    {
        if n <= 0 {
            seq![]
        } else {
            self.rows_text(ascii, n - 1) + self.row_text(ascii, n - 1, self.width) + seq![0x0au8]
        }
    }

    /// The whole frame: `height` rows of `width` glyphs, each row ended by a newline.
    pub open spec fn frame(self, ascii: bool) -> Seq<u8> {
        self.rows_text(ascii, self.height)
    }
}

/// A coordinate of the space has its cell inside the sequence.
pub proof fn lemma_index_in_bounds(m: GridModel, x: int, y: int)
    requires
        m.wf(),
        m.contains(x, y),
    ensures
        0 <= y * m.width <= m.index(x, y) < m.cells.len(),
{
    let w = m.width;
    let h = m.height;
    assert(0 <= y * w) by (nonlinear_arith)
        requires
            0 <= y,
            0 <= w,
    ;
    assert(y * w + x < w * h) by (nonlinear_arith)
        requires
            0 <= x < w,
            0 <= y < h,
    ;
}

/// Distinct coordinates of the space have distinct cells.
pub proof fn lemma_index_injective(m: GridModel, x: int, y: int, a: int, b: int)
    requires
        m.wf(),
        m.contains(x, y),
        m.contains(a, b),
        m.index(x, y) == m.index(a, b),
    ensures
        x == a,
        y == b,
{
    let w = m.width;
    if y < b {
        assert(y * w + w <= b * w) by (nonlinear_arith)
            requires
                y < b,
                w >= 1,
        ;
    } else if b < y {
        assert(b * w + w <= y * w) by (nonlinear_arith)
            requires
                b < y,
                w >= 1,
        ;
    }
}

/// The cell at `(x, y)` of the next generation is the rule applied at `(x, y)`.
pub proof fn lemma_next_alive(m: GridModel, x: int, y: int)
    requires
        m.wf(),
        m.contains(x, y),
    ensures
        m.next().wf(),
        m.next().cells[m.index(x, y)] == m.next_alive(x, y),
        m.next().alive(x, y) == m.next_alive(x, y),
{
    lemma_index_in_bounds(m, x, y);
    lemma_fundamental_div_mod_converse(m.index(x, y), m.width, y, x);
}

} // verus!
