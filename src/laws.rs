//! Properties of the model that hold for every grid.

use crate::grid::Grid;
use crate::model::{count_of, lemma_next_alive, GridModel};
use vstd::prelude::*;

verus! {

/// A live-neighbour count is never negative and never exceeds the number of
/// neighbours that lie inside the space, which is at most eight: cells
/// outside the space never count.
pub proof fn lemma_alive_count_bounds(m: GridModel, x: int, y: int)
    ensures
        0 <= m.alive_count(x, y),
        m.alive_count(x, y) <= m.neighbours_in_space(x, y),
        m.neighbours_in_space(x, y) <= 8,
{
}

/// The space does not wrap: the top-left corner has three neighbours, and its
/// count sees only the cells to its right, below it and diagonally below-right.
pub proof fn lemma_corner_count(m: GridModel)
    requires
        m.wf(),
        m.width >= 2,
        m.height >= 2,
    ensures
        m.neighbours_in_space(0, 0) == 3,
        m.alive_count(0, 0) == count_of(m.alive(1, 0)) + count_of(m.alive(0, 1)) + count_of(
            m.alive(1, 1),
        ),
{
}

/// Stepping is a function of the cells alone: two grids with the same cells
/// (whatever their random sources and glyph modes) step to the same cells.
pub proof fn lemma_step_depends_on_cells_only(a: &Grid, b: &Grid)
    requires
        a.wf(),
        b.wf(),
        a@ == b@,
    ensures
        a@.next() == b@.next(),
        a@.next().wf(),
        a@.next().width == a@.width,
        a@.next().height == a@.height,
{
    lemma_next_alive(a@, 0, 0);
}

} // verus!
