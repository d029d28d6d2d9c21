//! Conway's Game of Life on a bounded grid whose outside is permanently dead.

mod grid;
mod laws;
mod model;
mod random;

pub use grid::Grid;
pub use laws::{lemma_alive_count_bounds, lemma_corner_count, lemma_step_depends_on_cells_only};
pub use model::{count_of, glyph, life_rule, GridModel};
