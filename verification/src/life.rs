//! Conway's Game of Life: two states, birth on three live neighbours,
//! survival on two or three.

use vstd::prelude::*;
use crate::chance::Probability;
use crate::error::InvalidParameter;
use crate::grid::{Cell, Grid, GridView};
use crate::CellularAutomata;

verus! {

/// The state of a cell in the Game of Life.
#[derive(Clone, Copy, Debug, PartialEq, Eq, Structural)]
pub enum LifeCellState {
    Alive,
    Dead,
}

impl Cell for LifeCellState {
    open spec fn active_state() -> Self {
        LifeCellState::Alive
    }

    open spec fn dead_state() -> Self {
        LifeCellState::Dead
    }

    /// A live cell survives with two or three live neighbours, a dead cell
    /// comes to life with exactly three, and every other cell is dead.
    open spec fn successor(self, count: nat) -> Self {
        if (self == LifeCellState::Alive && (count == 2 || count == 3)) || (self
            == LifeCellState::Dead && count == 3) {
            LifeCellState::Alive
        } else {
            LifeCellState::Dead
        }
    }

    proof fn dead_is_inactive() {
    }

    fn active() -> (state: Self) {
        LifeCellState::Alive
    }

    fn dead() -> (state: Self) {
        LifeCellState::Dead
    }

    fn is_active(&self) -> (yes: bool) {
        match self {
            LifeCellState::Alive => true,
            LifeCellState::Dead => false,
        }
    }

    fn next_state(&self, count: u8) -> (state: Self) {
        match (*self, count) {
            (LifeCellState::Alive, 2) | (LifeCellState::Alive, 3) | (LifeCellState::Dead, 3) => {
                LifeCellState::Alive
            },
            _ => LifeCellState::Dead,
        }
    }
}

/// The rule of the Game of Life, case by case: a live cell stays alive with
/// two or three live neighbours and dies with any other number; a dead cell
/// comes to life with exactly three and stays dead with any other number.
pub proof fn lemma_life_rule_table(count: nat)
    ensures
        count == 2 || count == 3 ==> LifeCellState::Alive.successor(count) == LifeCellState::Alive,
        count != 2 && count != 3 ==> LifeCellState::Alive.successor(count) == LifeCellState::Dead,
        count == 3 ==> LifeCellState::Dead.successor(count) == LifeCellState::Alive,
        count != 3 ==> LifeCellState::Dead.successor(count) == LifeCellState::Dead,
{
}

/// The colour in which a cell is drawn, as red, green and blue: live cells
/// black, dead cells white.
pub fn life_color(cell: LifeCellState) -> (rgb: (u8, u8, u8))
    ensures
        rgb == (if cell == LifeCellState::Alive {
            (0u8, 0u8, 0u8)
        } else {
            (255u8, 255u8, 255u8)
        }),
{
    match cell {
        LifeCellState::Alive => (0, 0, 0),
        LifeCellState::Dead => (255, 255, 255),
    }
}

/// A board of the Game of Life.
pub struct LifeBoard {
    grid: Grid<LifeCellState>,
}

impl View for LifeBoard {
    type V = GridView<LifeCellState>;

    closed spec fn view(&self) -> GridView<LifeCellState> {
        self.grid@
    }
}

impl LifeBoard {
    /// Builds a board of the given shape and fills it at random: each cell is
    /// alive with probability `p_live`, independently of the others, and dead
    /// otherwise.
    ///
    /// The probability must lie between zero and one.
    pub fn new_random(width: usize, height: usize, p_live: Probability) -> (made: Result<
        LifeBoard,
        InvalidParameter,
    >)
        requires
            width * height <= usize::MAX,
        ensures
            !p_live.valid() ==> made == Err::<LifeBoard, InvalidParameter>(
                InvalidParameter::Probability,
            ),
            p_live.valid() ==> made is Ok && made->Ok_0@.wf() && made->Ok_0@.width == width
                && made->Ok_0@.height == height && made->Ok_0@.sown_at_random(p_live),
    {
        match Grid::new_random(width, height, p_live) {
            Ok(grid) => Ok(LifeBoard { grid }),
            Err(e) => Err(e),
        }
    }

    /// Builds a board of the given shape whose cells, row by row, are decided
    /// by `draws`: a cell is alive where its draw lies below the probability,
    /// and dead where it does not.
    ///
    /// The probability must lie between zero and one, and there must be one
    /// draw for each cell.
    pub fn from_draws(draws: &[u32], width: usize, height: usize, p_live: Probability) -> (made:
        Result<LifeBoard, InvalidParameter>)
        ensures
            !p_live.valid() ==> made == Err::<LifeBoard, InvalidParameter>(
                InvalidParameter::Probability,
            ),
            p_live.valid() && draws@.len() != width * height ==> made == Err::<
                LifeBoard,
                InvalidParameter,
            >(InvalidParameter::Length),
            p_live.valid() && draws@.len() == width * height ==> made is Ok && made->Ok_0@
                == GridView::<LifeCellState>::sown(draws@, width as nat, height as nat, p_live)
                && made->Ok_0@.wf(),
    {
        match Grid::from_draws(draws, width, height, p_live) {
            Ok(grid) => Ok(LifeBoard { grid }),
            Err(e) => Err(e),
        }
    }

    /// Builds a board of the given width from the cells of `vals`, row by
    /// row. The board holds its own copy of the cells.
    ///
    /// The width must not be zero, and the length of `vals` must be a whole
    /// multiple of the width; the height is the number of rows that results.
    pub fn from_array(vals: &[LifeCellState], width: usize) -> (made: Result<
        LifeBoard,
        InvalidParameter,
    >)
        ensures
            width == 0 ==> made == Err::<LifeBoard, InvalidParameter>(InvalidParameter::ZeroWidth),
            width != 0 && vals@.len() % (width as nat) != 0 ==> made == Err::<
                LifeBoard,
                InvalidParameter,
            >(InvalidParameter::Length),
            width != 0 && vals@.len() % (width as nat) == 0 ==> made is Ok && made->Ok_0@
                == GridView::<LifeCellState>::from_cells(vals@, width as nat) && made->Ok_0@.wf(),
    {
        match Grid::from_slice(vals, width) {
            Ok(grid) => Ok(LifeBoard { grid }),
            Err(e) => Err(e),
        }
    }

    /// How many of the eight cells around `(i, j)` are alive. Neighbours off
    /// the board count as dead.
    pub fn count_neighbours(&self, i: i32, j: i32) -> (count: u8)
        ensures
            count == self@.active_neighbours(i as int, j as int),
            count <= 8,
    {
        self.grid.count_neighbours(i, j)
    }
}

impl CellularAutomata<LifeCellState> for LifeBoard {
    open spec fn width(&self) -> nat {
        self@.width
    }

    open spec fn height(&self) -> nat {
        self@.height
    }

    open spec fn boundary() -> LifeCellState {
        LifeCellState::Dead
    }

    open spec fn cell(&self, i: int, j: int) -> LifeCellState {
        self@.cell(i, j)
    }

    open spec fn next_cell(&self, i: int, j: int) -> LifeCellState {
        self@.next_cell(i, j)
    }

    fn step(&mut self)
        ensures
            final(self)@ == old(self)@.next(),
            final(self)@.wf(),
    {
        self.grid.advance();
        proof {
            let before = old(self)@;
            assert forall|i: int, j: int| before.contains(i, j) implies #[trigger] before.next().cell(
                i,
                j,
            ) == before.next_cell(i, j) by {
                before.lemma_next_cell(i, j);
            }
        }
    }

    fn get_cell(&self, i: i32, j: i32) -> (state: LifeCellState) {
        self.grid.get(i, j)
    }

    fn get_width(&self) -> (w: usize)
        ensures
            self@.wf(),
    {
        self.grid.width()
    }

    fn get_height(&self) -> (h: usize)
        ensures
            self@.wf(),
    {
        self.grid.height()
    }
}

} // verus!
