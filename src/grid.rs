//! The grid: its cells in a row-major vector, stepping, and rendering to bytes.

use crate::model::{glyph, lemma_index_in_bounds, lemma_index_injective, lemma_next_alive, GridModel};
use crate::random::{draw_bool, seeded_rng};
use rand::rngs::StdRng;
use vstd::prelude::*;

verus! {

/// A generation of the automaton together with its configuration: dimensions,
/// glyph mode and the random source used by [`Grid::randomize`].
pub struct Grid {
    cells: Vec<bool>,
    width: i32,
    height: i32,
    rng: StdRng,
    ascii: bool,
}

impl View for Grid {
    type V = GridModel;

    closed spec fn view(&self) -> GridModel {
        GridModel { width: self.width as int, height: self.height as int, cells: self.cells@ }
    }
}

impl Grid {
    /// The grid covers its space exactly once.
    pub open spec fn wf(&self) -> bool {
        self@.wf()
    }

    /// Whether frames use ASCII glyphs rather than block characters.
    pub closed spec fn ascii_mode(&self) -> bool {
        self.ascii
    }

    /// A grid of `width` by `height` dead cells, whose random source is seeded with `seed`.
    pub fn new(width: i32, height: i32, ascii: bool, seed: u64) -> (grid: Grid)
        requires
            width >= 1,
            height >= 1,
            width * height <= usize::MAX,
        ensures
            grid.wf(),
            grid@.width == width,
            grid@.height == height,
            grid.ascii_mode() == ascii,
            forall|x: int, y: int| !(#[trigger] grid@.alive(x, y)),
    {
        let n: usize = (width as usize) * (height as usize);
        let mut cells: Vec<bool> = Vec::new();
        let mut i: usize = 0;
        while i < n
            invariant
                i <= n,
                cells@.len() == i,
                forall|j: int| 0 <= j < i ==> !cells@[j],
            decreases n - i,
        {
            cells.push(false);
            i += 1;
        }
        let grid = Grid { cells, width, height, rng: seeded_rng(seed), ascii };
        assert forall|x: int, y: int| !(#[trigger] grid@.alive(x, y)) by {
            if grid@.contains(x, y) {
                lemma_index_in_bounds(grid@, x, y);
            }
        }
        grid
    }

    pub fn width(&self) -> (r: i32)
        ensures
            r == self@.width,
    {
        self.width
    }

    pub fn height(&self) -> (r: i32)
        ensures
            r == self@.height,
    {
        self.height
    }

    pub fn ascii(&self) -> (r: bool)
        ensures
            r == self.ascii_mode(),
    {
        self.ascii
    }

    /// The position of `(x, y)` in the cell vector.
    fn index_of(&self, x: i32, y: i32) -> (i: usize)
        requires
            self.wf(),
            self@.contains(x as int, y as int),
        ensures
            i == self@.index(x as int, y as int),
            i < self.cells@.len(),
    {
        // the length is a usize, so every index below it fits one
        let len = self.cells.len();
        proof {
            lemma_index_in_bounds(self@, x as int, y as int);
            assert(self@.index(x as int, y as int) < len);
        }
        let row_start = (y as usize) * (self.width as usize);
        row_start + (x as usize)
    }

    /// Whether `(x, y)` is alive; a coordinate outside the space reads as dead.
    pub fn get(&self, x: i32, y: i32) -> (alive: bool)
        requires
            self.wf(),
        ensures
            alive == self@.alive(x as int, y as int),
    {
        if 0 <= x && x < self.width && 0 <= y && y < self.height {
            self.cells[self.index_of(x, y)]
        } else {
            false
        }
    }

    /// Makes `(x, y)` alive or dead, leaving every other cell as it was.
    pub fn set(&mut self, x: i32, y: i32, alive: bool)
        requires
            old(self).wf(),
            old(self)@.contains(x as int, y as int),
        ensures
            final(self).wf(),
            final(self)@.width == old(self)@.width,
            final(self)@.height == old(self)@.height,
            final(self).ascii_mode() == old(self).ascii_mode(),
            final(self)@.cells == old(self)@.cells.update(old(self)@.index(x as int, y as int), alive),
            forall|a: int, b: int|
                #![trigger final(self)@.alive(a, b)]
                final(self)@.alive(a, b) == if a == x && b == y {
                    alive
                } else {
                    old(self)@.alive(a, b)
                },
    {
        let i = self.index_of(x, y);
        self.cells.set(i, alive);
        proof {
            assert forall|a: int, b: int|
                #![trigger self@.alive(a, b)]
                self@.alive(a, b) == if a == x && b == y {
                    alive
                } else {
                    old(self)@.alive(a, b)
                } by {
                if self@.contains(a, b) {
                    lemma_index_in_bounds(self@, a, b);
                    if self@.index(a, b) == i {
                        lemma_index_injective(self@, x as int, y as int, a, b);
                    }
                }
            }
        }
    }

    /// The number of live cells among the eight neighbours of `(x, y)`;
    /// neighbours outside the space count as dead.
    pub fn alive_count(&self, x: i32, y: i32) -> (n: i32)
        requires
            self.wf(),
            self@.contains(x as int, y as int),
        ensures
            n == self@.alive_count(x as int, y as int),
            0 <= n <= 8,
    {
        let mut n: i32 = 0;
        if self.get(x - 1, y - 1) {
            n += 1;
        }
        if self.get(x, y - 1) {
            n += 1;
        }
        if self.get(x + 1, y - 1) {
            n += 1;
        }
        if self.get(x - 1, y) {
            n += 1;
        }
        if self.get(x + 1, y) {
            n += 1;
        }
        if self.get(x - 1, y + 1) {
            n += 1;
        }
        if self.get(x, y + 1) {
            n += 1;
        }
        if self.get(x + 1, y + 1) {
            n += 1;
        }
        n
    }

    /// Whether `(x, y)` is alive in the next generation.
    pub fn next_state(&self, x: i32, y: i32) -> (alive: bool)
        requires
            self.wf(),
            self@.contains(x as int, y as int),
        ensures
            alive == self@.next_alive(x as int, y as int),
    {
        let n = self.alive_count(x, y);
        let alive = self.get(x, y);
        if n < 2 {
            false
        } else if n > 3 {
            false
        } else if alive {
            true
        } else if n == 3 {
            true
        } else {
            // a dead cell with exactly two live neighbours stays dead
            false
        }
    }

    /// A fresh vector holding the same cells.
    fn copy_grid(&self) -> (copy: Vec<bool>)
        ensures
            copy@ == self.cells@,
    {
        let mut copy: Vec<bool> = Vec::new();
        let mut i: usize = 0;
        while i < self.cells.len()
            invariant
                i <= self.cells@.len(),
                copy@ == self.cells@.subrange(0, i as int),
            decreases self.cells@.len() - i,
        {
            copy.push(self.cells[i]);
            i += 1;
        }
        assert(copy@ =~= self.cells@);
        copy
    }

    /// The cells of the next generation, computed from a snapshot of this one
    /// so that every cell is updated from the same generation.
    fn next_cells(&self) -> (next: Vec<bool>)
        requires
            self.wf(),
        ensures
            next@ == self@.next().cells,
    {
        let mut next = self.copy_grid();
        let ghost m = self@;
        let ghost w = self.width as int;
        let mut y: i32 = 0;
        while y < self.height
            invariant
                self.wf(),
                m == self@,
                w == m.width,
                0 <= y <= m.height,
                next@.len() == m.cells.len(),
                forall|j: int| 0 <= j < y * w ==> next@[j] == m.next().cells[j],
            decreases m.height - y,
        {
            let mut x: i32 = 0;
            while x < self.width
                invariant
                    self.wf(),
                    m == self@,
                    w == m.width,
                    0 <= y < m.height,
                    0 <= x <= w,
                    next@.len() == m.cells.len(),
                    forall|j: int| 0 <= j < y * w + x ==> next@[j] == m.next().cells[j],
                decreases w - x,
            {
                let i = self.index_of(x, y);
                let alive = self.next_state(x, y);
                proof {
                    lemma_next_alive(m, x as int, y as int);
                }
                next.set(i, alive);
                x += 1;
            }
            assert((y + 1) * w == y * w + w) by (nonlinear_arith);
            y += 1;
        }
        assert(m.height * w == m.cells.len()) by (nonlinear_arith)
            requires
                m.wf(),
                w == m.width,
        ;
        assert(next@ =~= m.next().cells);
        next
    }

    /// Replaces the cells with the next generation. The result depends on the
    /// cells alone: no randomness is drawn.
    pub fn step(&mut self)
        requires
            old(self).wf(),
        ensures
            final(self).wf(),
            final(self)@ == old(self)@.next(),
            final(self).ascii_mode() == old(self).ascii_mode(),
    {
        let next = self.next_cells();
        self.cells = next;
    }

    /// Writes `bits` into the cells in row-major order: `bits[y * width + x]`
    /// becomes the cell at `(x, y)`.
    pub fn fill_cells(&mut self, bits: &Vec<bool>)
        requires
            old(self).wf(),
            bits@.len() == old(self)@.cells.len(),
        ensures
            final(self).wf(),
            final(self)@.width == old(self)@.width,
            final(self)@.height == old(self)@.height,
            final(self)@.cells == bits@,
            final(self).ascii_mode() == old(self).ascii_mode(),
            forall|x: int, y: int|
                #![trigger final(self)@.alive(x, y)]
                final(self)@.contains(x, y) ==> final(self)@.alive(x, y)
                    == bits@[y * final(self)@.width + x],
    {
        let len = self.cells.len();
        let mut i: usize = 0;
        while i < len
            invariant
                i <= len,
                len == bits@.len(),
                self@.width == old(self)@.width,
                self@.height == old(self)@.height,
                self@.cells.len() == len,
                self.ascii_mode() == old(self).ascii_mode(),
                forall|j: int| 0 <= j < i ==> self@.cells[j] == bits@[j],
            decreases len - i,
        {
            self.cells.set(i, bits[i]);
            i += 1;
        }
        assert(self@.cells =~= bits@);
        proof {
            assert forall|x: int, y: int|
                #![trigger self@.alive(x, y)]
                self@.contains(x, y) implies self@.alive(x, y) == bits@[y * self@.width + x] by {
                lemma_index_in_bounds(self@, x, y);
            }
        }
    }

    /// Gives every cell a value drawn from the random source: one draw per
    /// cell, in row-major order, the cell at `(x, y)` taking draw `y * width + x`.
    pub fn randomize(&mut self)
        requires
            old(self).wf(),
        ensures
            final(self).wf(),
            final(self)@.width == old(self)@.width,
            final(self)@.height == old(self)@.height,
            final(self)@.cells.len() == old(self)@.cells.len(),
            final(self).ascii_mode() == old(self).ascii_mode(),
    {
        let len = self.cells.len();
        let mut bits: Vec<bool> = Vec::new();
        let mut i: usize = 0;
        while i < len
            invariant
                i <= len,
                bits@.len() == i,
                len == self@.cells.len(),
                self.wf(),
                self@ == old(self)@,
                self.ascii_mode() == old(self).ascii_mode(),
            decreases len - i,
        {
            bits.push(draw_bool(&mut self.rng));
            i += 1;
        }
        self.fill_cells(&bits);
    }

    fn print_alive_cell(&self, output: &mut Vec<u8>)
        ensures
            final(output)@ == old(output)@ + glyph(true, self.ascii_mode()),
    {
        if self.ascii {
            output.push(0x78u8);
        } else {
            output.push(0xe2u8);
            output.push(0x96u8);
            output.push(0x88u8);
        }
        assert(output@ =~= old(output)@ + glyph(true, self.ascii_mode()));
    }

    fn print_dead_cell(&self, output: &mut Vec<u8>)
        ensures
            final(output)@ == old(output)@ + glyph(false, self.ascii_mode()),
    {
        if self.ascii {
            output.push(0x2eu8);
        } else {
            output.push(0xe2u8);
            output.push(0x96u8);
            output.push(0x91u8);
        }
        assert(output@ =~= old(output)@ + glyph(false, self.ascii_mode()));
    }

    fn print_cell(&self, state: bool, output: &mut Vec<u8>)
        ensures
            final(output)@ == old(output)@ + glyph(state, self.ascii_mode()),
    {
        if state {
            self.print_alive_cell(output);
        } else {
            self.print_dead_cell(output);
        }
    }

    /// Appends the frame's UTF-8 text to `output`: for each row from the top,
    /// one glyph per cell from the left, then a newline.
    pub fn print_to(&self, output: &mut Vec<u8>)
        requires
            self.wf(),
        ensures
            final(output)@ == old(output)@ + self@.frame(self.ascii_mode()),
    {
        let ghost start = output@;
        let ghost m = self@;
        let ghost ascii = self.ascii_mode();
        let mut y: i32 = 0;
        while y < self.height
            invariant
                self.wf(),
                m == self@,
                ascii == self.ascii_mode(),
                0 <= y <= m.height,
                output@ == start + m.rows_text(ascii, y as int),
            decreases m.height - y,
        {
            let mut x: i32 = 0;
            while x < self.width
                invariant
                    self.wf(),
                    m == self@,
                    ascii == self.ascii_mode(),
                    0 <= y < m.height,
                    0 <= x <= m.width,
                    output@ == start + m.rows_text(ascii, y as int) + m.row_text(
                        ascii,
                        y as int,
                        x as int,
                    ),
                decreases m.width - x,
            {
                let state = self.get(x, y);
                self.print_cell(state, output);
                proof {
                    assert(m.row_text(ascii, y as int, x + 1) == m.row_text(ascii, y as int, x as int)
                        + glyph(state, ascii));
                }
                x += 1;
            }
            output.push(0x0au8);
            assert(output@ =~= start + m.rows_text(ascii, y + 1));
            y += 1;
        }
    }
}

} // verus!
