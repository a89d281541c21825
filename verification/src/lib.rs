//! Conway's Game of Life on a torus: a verified cell automaton engine.
//!
//! The mathematical model of a universe is [`grid::Grid`]; the executable
//! engine is [`universe::Universe`], whose contracts are stated over that model.

pub mod grid;
pub mod laws;
pub mod product;
pub mod universe;

use crate::grid::Grid;
use crate::universe::Universe;
use vstd::prelude::*;

verus! {

/// A universe of 64 rows and 64 columns, seeded from one draw per cell.
pub fn get_universe(draws: &[bool]) -> (universe: Universe)
    requires
        draws@.len() == 64 * 64,
    ensures
        universe.wf(),
        universe@ == Grid::from_draws(64, 64, draws@),
{
    Universe::new(64, 64, draws)
}

} // verus!
