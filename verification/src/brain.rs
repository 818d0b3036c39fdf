//! Brian's Brain: three states. A cell fires when exactly two of its
//! neighbours fire, rests for one generation after firing, and is dead
//! otherwise.

use vstd::prelude::*;
use crate::chance::Probability;
use crate::error::InvalidParameter;
use crate::grid::{Cell, Grid, GridView};
use crate::CellularAutomata;

verus! {

/// The state of a cell in Brian's Brain.
#[derive(Clone, Copy, Debug, PartialEq, Eq, Structural)]
pub enum BrainCellState {
    Firing,
    /// Refractory: at rest for the generation after firing.
    Refactory,
    Dead,
}

impl Cell for BrainCellState {
    open spec fn active_state() -> Self {
        BrainCellState::Firing
    }

    open spec fn dead_state() -> Self {
        BrainCellState::Dead
    }

    /// In this order: a cell with exactly two firing neighbours fires,
    /// whatever its own state; failing that, a firing cell comes to rest;
    /// every other cell is dead.
    open spec fn successor(self, count: nat) -> Self {
        if count == 2 {
            BrainCellState::Firing
        } else if self == BrainCellState::Firing {
            BrainCellState::Refactory
        } else {
            BrainCellState::Dead
        }
    }

    proof fn dead_is_inactive() {
    }

    fn active() -> (state: Self) {
        BrainCellState::Firing
    }

    fn dead() -> (state: Self) {
        BrainCellState::Dead
    }

    fn is_active(&self) -> (yes: bool) {
        match self {
            BrainCellState::Firing => true,
            _ => false,
        }
    }

    fn next_state(&self, count: u8) -> (state: Self) {
        match (*self, count) {
            (_, 2) => BrainCellState::Firing,
            (BrainCellState::Firing, _) => BrainCellState::Refactory,
            _ => BrainCellState::Dead,
        }
    }
}

/// The rule of Brian's Brain, case by case: with exactly two firing
/// neighbours a cell fires, whatever its own state, a firing cell included;
/// with any other number a firing cell comes to rest, and a resting or dead
/// cell is dead.
pub proof fn lemma_brain_rule_table(state: BrainCellState, count: nat)
    ensures
        count == 2 ==> state.successor(count) == BrainCellState::Firing,
        count != 2 && state == BrainCellState::Firing ==> state.successor(count)
            == BrainCellState::Refactory,
        count != 2 && state != BrainCellState::Firing ==> state.successor(count)
            == BrainCellState::Dead,
{
}

/// The colour in which a cell is drawn, as red, green and blue: firing cells
/// white, resting cells blue, dead cells black.
pub fn brain_color(cell: BrainCellState) -> (rgb: (u8, u8, u8))
    ensures
        rgb == (match cell {
            BrainCellState::Firing => (255u8, 255u8, 255u8),
            BrainCellState::Refactory => (0u8, 0u8, 255u8),
            BrainCellState::Dead => (0u8, 0u8, 0u8),
        }),
{
    match cell {
        BrainCellState::Firing => (255, 255, 255),
        BrainCellState::Refactory => (0, 0, 255),
        BrainCellState::Dead => (0, 0, 0),
    }
}

/// A board of Brian's Brain.
pub struct BrainBoard {
    grid: Grid<BrainCellState>,
}

impl View for BrainBoard {
    type V = GridView<BrainCellState>;

    closed spec fn view(&self) -> GridView<BrainCellState> {
        self.grid@
    }
}

impl BrainBoard {
    /// Builds a board of the given shape and fills it at random: each cell
    /// fires with probability `p_live`, independently of the others, and is
    /// dead otherwise.
    ///
    /// The probability must lie between zero and one.
    pub fn new_random(width: usize, height: usize, p_live: Probability) -> (made: Result<
        BrainBoard,
        InvalidParameter,
    >)
        requires
            width * height <= usize::MAX,
        ensures
            !p_live.valid() ==> made == Err::<BrainBoard, InvalidParameter>(
                InvalidParameter::Probability,
            ),
            p_live.valid() ==> made is Ok && made->Ok_0@.wf() && made->Ok_0@.width == width
                && made->Ok_0@.height == height && made->Ok_0@.sown_at_random(p_live),
    {
        match Grid::new_random(width, height, p_live) {
            Ok(grid) => Ok(BrainBoard { grid }),
            Err(e) => Err(e),
        }
    }

    /// Builds a board of the given shape whose cells, row by row, are decided
    /// by `draws`: a cell fires where its draw lies below the probability, and
    /// is dead where it does not.
    ///
    /// The probability must lie between zero and one, and there must be one
    /// draw for each cell.
    pub fn from_draws(draws: &[u32], width: usize, height: usize, p_live: Probability) -> (made:
        Result<BrainBoard, InvalidParameter>)
        ensures
            !p_live.valid() ==> made == Err::<BrainBoard, InvalidParameter>(
                InvalidParameter::Probability,
            ),
            p_live.valid() && draws@.len() != width * height ==> made == Err::<
                BrainBoard,
                InvalidParameter,
            >(InvalidParameter::Length),
            p_live.valid() && draws@.len() == width * height ==> made is Ok && made->Ok_0@
                == GridView::<BrainCellState>::sown(draws@, width as nat, height as nat, p_live)
                && made->Ok_0@.wf(),
    {
        match Grid::from_draws(draws, width, height, p_live) {
            Ok(grid) => Ok(BrainBoard { grid }),
            Err(e) => Err(e),
        }
    }

    /// Builds a board of the given width from the cells of `vals`, row by
    /// row. The board holds its own copy of the cells.
    ///
    /// The width must not be zero, and the length of `vals` must be a whole
    /// multiple of the width; the height is the number of rows that results.
    pub fn from_array(vals: &[BrainCellState], width: usize) -> (made: Result<
        BrainBoard,
        InvalidParameter,
    >)
        ensures
            width == 0 ==> made == Err::<BrainBoard, InvalidParameter>(InvalidParameter::ZeroWidth),
            width != 0 && vals@.len() % (width as nat) != 0 ==> made == Err::<
                BrainBoard,
                InvalidParameter,
            >(InvalidParameter::Length),
            width != 0 && vals@.len() % (width as nat) == 0 ==> made is Ok && made->Ok_0@
                == GridView::<BrainCellState>::from_cells(vals@, width as nat) && made->Ok_0@.wf(),
    {
        match Grid::from_slice(vals, width) {
            Ok(grid) => Ok(BrainBoard { grid }),
            Err(e) => Err(e),
        }
    }

    /// How many of the eight cells around `(i, j)` fire. Resting cells do not
    /// count, and neighbours off the board count as dead.
    pub fn count_neighbours(&self, i: i32, j: i32) -> (count: u8)
        ensures
            count == self@.active_neighbours(i as int, j as int),
            count <= 8,
    {
        self.grid.count_neighbours(i, j)
    }
}

impl CellularAutomata<BrainCellState> for BrainBoard {
    open spec fn width(&self) -> nat {
        self@.width
    }

    open spec fn height(&self) -> nat {
        self@.height
    }

    open spec fn boundary() -> BrainCellState {
        BrainCellState::Dead
    }

    open spec fn cell(&self, i: int, j: int) -> BrainCellState {
        self@.cell(i, j)
    }

    open spec fn next_cell(&self, i: int, j: int) -> BrainCellState {
        self@.next_cell(i, j)
    }

    fn step(&mut self)
        ensures
            final(self)@ == old(self)@.next(),
            final(self)@.wf(),
    {
        self.grid.advance();
        proof {
            let before = old(self)@;
            assert forall|i: int, j: int| before.contains(i, j) implies #[trigger] before.next().cell(
                i,
                j,
            ) == before.next_cell(i, j) by {
                before.lemma_next_cell(i, j);
            }
        }
    }

    fn get_cell(&self, i: i32, j: i32) -> (state: BrainCellState) {
        self.grid.get(i, j)
    }

    fn get_width(&self) -> (w: usize)
        ensures
            self@.wf(),
    {
        self.grid.width()
    }

    fn get_height(&self) -> (h: usize)
        ensures
            self@.wf(),
    {
        self.grid.height()
    }
}

} // verus!
