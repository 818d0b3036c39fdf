//! Two-dimensional cellular automata on a fixed rectangular board: Conway's
//! Game of Life and Brian's Brain.
//!
//! A board is a row-major grid of cell states surrounded by an endless border
//! of dead cells. Every generation replaces all cells at once, each computed
//! from the generation before it.

use vstd::prelude::*;

pub mod brain;
pub mod chance;
pub mod error;
pub mod grid;
pub mod life;
pub mod render;

verus! {

/// A cellular automaton on a rectangular board whose cells hold states of
/// type `T`.
///
/// The spec functions describe the board; the executable methods read it and
/// move it one generation forward.
pub trait CellularAutomata<T> {
    /// The number of columns.
    spec fn width(&self) -> nat;

    /// The number of rows.
    spec fn height(&self) -> nat;

    /// The state that every position off the board holds.
    spec fn boundary() -> T;

    /// The state at column `i` of row `j`.
    spec fn cell(&self, i: int, j: int) -> T;

    /// The state that the rule set gives `(i, j)` in the next generation.
    spec fn next_cell(&self, i: int, j: int) -> T;

    /// Moves the board one generation forward: every cell takes the state
    /// that the rule set gave it on the board as it was before the call. The
    /// shape does not change.
    fn step(&mut self)
        ensures
            final(self).width() == old(self).width(),
            final(self).height() == old(self).height(),
            forall|i: int, j: int|
                0 <= i < old(self).width() && 0 <= j < old(self).height()
                    ==> #[trigger] final(self).cell(i, j) == old(self).next_cell(i, j),
    ;

    /// The state at column `i` of row `j`. Off the board, on any side, this
    /// is the boundary state.
    fn get_cell(&self, i: i32, j: i32) -> (state: T)
        ensures
            state == self.cell(i as int, j as int),
            !(0 <= i < self.width() && 0 <= j < self.height()) ==> state == Self::boundary(),
    ;

    /// The number of columns.
    fn get_width(&self) -> (w: usize)
        ensures
            w == self.width(),
    ;

    /// The number of rows.
    fn get_height(&self) -> (h: usize)
        ensures
            h == self.height(),
    ;
}

} // verus!
