//! The board's storage: a rectangle of cell states kept row by row, and the
//! generation step that every rule set shares.

use vstd::prelude::*;
use crate::chance::{draw_below, Probability};
use crate::error::InvalidParameter;

verus! {

/// What a rule set says about its cell states.
///
/// A rule set names the state that counts as a live neighbour, the state of
/// every position off the board, and the state that follows a given state in
/// the next generation.
pub trait Cell: Copy {
    /// The state that is counted when neighbours are counted.
    spec fn active_state() -> Self;

    /// The state of an empty cell, which every position outside the board
    /// holds too.
    spec fn dead_state() -> Self;

    /// The state that follows `self` when `count` of its eight neighbours are
    /// active.
    spec fn successor(self, count: nat) -> Self;

    /// A dead cell, and so every position outside the board, never counts as
    /// an active neighbour.
    proof fn dead_is_inactive()
        ensures
            Self::dead_state() != Self::active_state(),
    ;

    /// The active state.
    fn active() -> (state: Self)
        ensures
            state == Self::active_state(),
    ;

    /// The dead state.
    fn dead() -> (state: Self)
        ensures
            state == Self::dead_state(),
    ;

    /// Whether this state is the active one.
    fn is_active(&self) -> (yes: bool)
        ensures
            yes == (*self == Self::active_state()),
    ;

    /// The state of the next generation, given the number of active
    /// neighbours.
    fn next_state(&self, count: u8) -> (state: Self)
        ensures
            state == self.successor(count as nat),
    ;
}

/// The mathematical content of a board: its shape and its cells, row by row.
pub struct GridView<S> {
    pub width: nat,
    pub height: nat,
    pub cells: Seq<S>,
}

impl<S: Cell> GridView<S> {
    /// There is exactly one cell for each position.
    pub open spec fn wf(self) -> bool {
        self.cells.len() == self.width * self.height
    }

    /// The board of the given width that holds `cells`, row by row.
    pub open spec fn from_cells(cells: Seq<S>, width: nat) -> GridView<S> {
        GridView { width, height: cells.len() / width, cells }
    }

    /// Whether column `i` of row `j` lies on the board.
    pub open spec fn contains(self, i: int, j: int) -> bool {
        0 <= i < self.width && 0 <= j < self.height
    }

    /// The state at column `i` of row `j`; off the board, the dead state.
    pub open spec fn cell(self, i: int, j: int) -> S {
        if self.contains(i, j) {
            self.cells[i + j * self.width]
        } else {
            S::dead_state()
        }
    }

    /// One if the cell at `(i, j)` is active, zero if not.
    pub open spec fn active_at(self, i: int, j: int) -> nat {
        if self.cell(i, j) == S::active_state() {
            1
        } else {
            0
        }
    }

    /// How many of the eight cells around `(i, j)` are active.
    pub open spec fn active_neighbours(self, i: int, j: int) -> nat {
        self.active_at(i - 1, j - 1) + self.active_at(i, j - 1) + self.active_at(i + 1, j - 1)
            + self.active_at(i - 1, j) + self.active_at(i + 1, j)
            + self.active_at(i - 1, j + 1) + self.active_at(i, j + 1) + self.active_at(i + 1, j + 1)
    }

    /// The state of `(i, j)` in the next generation.
    pub open spec fn next_cell(self, i: int, j: int) -> S {
        self.cell(i, j).successor(self.active_neighbours(i, j))
    }

    /// The next generation: the same shape, every cell replaced by its
    /// successor in this generation.
    pub open spec fn next(self) -> GridView<S> {
        GridView {
            width: self.width,
            height: self.height,
            cells: Seq::new(
                self.cells.len(),
                |k: int| self.next_cell(k % (self.width as int), k / (self.width as int)),
            ),
        }
    }

    /// The state that a draw gives a cell: active where the draw lies below
    /// the probability, dead where it does not.
    pub open spec fn sown_cell(draw: u32, p_live: Probability) -> S {
        if p_live.admits(draw) {
            S::active_state()
        } else {
            S::dead_state()
        }
    }

    /// The board of the given shape whose cells, row by row, are decided by
    /// `draws`.
    pub open spec fn sown(
        draws: Seq<u32>,
        width: nat,
        height: nat,
        p_live: Probability,
    ) -> GridView<S> {
        GridView {
            width,
            height,
            cells: Seq::new(draws.len(), |k: int| Self::sown_cell(draws[k], p_live)),
        }
    }

    /// Whether this board can come out of random filling: some draws, one
    /// for each cell and each below the denominator, decide its cells.
    pub open spec fn sown_at_random(self, p_live: Probability) -> bool {
        exists|draws: Seq<u32>|
            {
                &&& draws.len() == self.width * self.height
                &&& forall|k: int| 0 <= k < draws.len() ==> draws[k] < p_live.denominator
                &&& self == #[trigger] Self::sown(draws, self.width, self.height, p_live)
            }
    }

    /// The board `n` generations later.
    pub open spec fn after(self, n: nat) -> GridView<S>
        decreases n,
    {
        if n == 0 {
            self
        } else {
            self.next().after((n - 1) as nat)
        }
    }
}

impl<S: Cell> GridView<S> {
    /// A whole number of rows makes a well-formed board.
    pub proof fn lemma_from_cells_wf(cells: Seq<S>, width: nat)
        requires
            width != 0,
            cells.len() % width == 0,
        ensures
            Self::from_cells(cells, width).wf(),
            Self::from_cells(cells, width).width == width,
            Self::from_cells(cells, width).height * width == cells.len(),
    {
        vstd::arithmetic::div_mod::lemma_fundamental_div_mod(cells.len() as int, width as int);
        assert(width * (cells.len() / width) == (cells.len() / width) * width) by (nonlinear_arith);
    }

    /// Every position off the board, on any side of it, holds the dead state.
    pub proof fn lemma_dead_outside(self, i: int, j: int)
        requires
            i < 0 || j < 0 || i >= self.width || j >= self.height,
        ensures
            self.cell(i, j) == S::dead_state(),
            self.active_at(i, j) == 0,
    {
        S::dead_is_inactive();
    }

    /// The next generation holds, at each position on the board, the
    /// successor that this generation gives that position.
    pub proof fn lemma_next_cell(self, i: int, j: int)
        requires
            self.wf(),
            self.contains(i, j),
        ensures
            self.next().cell(i, j) == self.next_cell(i, j),
    {
        lemma_index_in_range(self.width, self.height, i, j);
    }

    /// A generation step keeps the shape: width, height and number of cells.
    pub proof fn lemma_next_keeps_shape(self)
        requires
            self.wf(),
        ensures
            self.next().wf(),
            self.next().width == self.width,
            self.next().height == self.height,
            self.next().cells.len() == self.cells.len(),
    {
    }

    /// Any number of generation steps keeps the shape: width, height and
    /// number of cells.
    pub proof fn lemma_after_keeps_shape(self, n: nat)
        requires
            self.wf(),
        ensures
            self.after(n).wf(),
            self.after(n).width == self.width,
            self.after(n).height == self.height,
            self.after(n).cells.len() == self.cells.len(),
        decreases n,
    {
        if n > 0 {
            self.lemma_next_keeps_shape();
            self.next().lemma_after_keeps_shape((n - 1) as nat);
        }
    }

    /// The transition has no hidden input: two boards that were built from
    /// the same cells and the same width are equal after one generation
    /// step, and after any number of them.
    pub proof fn lemma_deterministic(
        cells: Seq<S>,
        width: nat,
        first: GridView<S>,
        second: GridView<S>,
        n: nat,
    )
        requires
            first == Self::from_cells(cells, width),
            second == Self::from_cells(cells, width),
        ensures
            first.next() == second.next(),
            first.after(n) == second.after(n),
    {
    }

    /// With probability zero every cell is dead, and with probability one
    /// every cell is active, whatever the draws were.
    pub proof fn lemma_sown_certain(self, p_live: Probability)
        requires
            p_live.valid(),
            self.sown_at_random(p_live),
        ensures
            p_live.numerator == 0 ==> forall|k: int|
                0 <= k < self.cells.len() ==> #[trigger] self.cells[k] == S::dead_state(),
            p_live.numerator == p_live.denominator ==> forall|k: int|
                0 <= k < self.cells.len() ==> #[trigger] self.cells[k] == S::active_state(),
            forall|k: int|
                0 <= k < self.cells.len() ==> #[trigger] self.cells[k] == S::active_state()
                    || self.cells[k] == S::dead_state(),
            self.wf(),
    {
        let draws = choose|draws: Seq<u32>|
            {
                &&& draws.len() == self.width * self.height
                &&& forall|k: int| 0 <= k < draws.len() ==> draws[k] < p_live.denominator
                &&& self == #[trigger] Self::sown(draws, self.width, self.height, p_live)
            };
        assert(self.cells.len() == draws.len());
    }
}

/// A position on the board has its own place in the row-major storage.
pub proof fn lemma_index_in_range(width: nat, height: nat, i: int, j: int)
    requires
        0 <= i < width,
        0 <= j < height,
    ensures
        0 <= i + j * width < width * height,
        (i + j * width) % (width as int) == i,
        (i + j * width) / (width as int) == j,
{
    let w = width as int;
    assert(0 <= j * w) by (nonlinear_arith)
        requires
            0 <= j,
            0 <= w,
    ;
    assert(i + j * w < w * height) by (nonlinear_arith)
        requires
            0 <= i < w,
            0 <= j < height,
    ;
    vstd::arithmetic::div_mod::lemma_fundamental_div_mod_converse(i + j * w, w, j, i);
}

/// A rectangle of cell states, stored row by row.
pub struct Grid<S> {
    cells: Vec<S>,
    width: usize,
    height: usize,
}

impl<S: Cell> View for Grid<S> {
    type V = GridView<S>;

    closed spec fn view(&self) -> GridView<S> {
        GridView { width: self.width as nat, height: self.height as nat, cells: self.cells@ }
    }
}

impl<S> Grid<S> {
    #[verifier::type_invariant]
    spec fn inv(self) -> bool {
        self.cells.len() == self.width * self.height
    }
}

impl<S: Cell> Grid<S> {
    /// Builds a grid of the given width from the cells of `vals`, row by row.
    ///
    /// The width must not be zero, and `vals` must hold a whole number of
    /// rows.
    pub fn from_slice(vals: &[S], width: usize) -> (made: Result<Self, InvalidParameter>)
        ensures
            width == 0 ==> made == Err::<Self, InvalidParameter>(InvalidParameter::ZeroWidth),
            width != 0 && vals@.len() % (width as nat) != 0 ==> made == Err::<Self, InvalidParameter>(
                InvalidParameter::Length,
            ),
            width != 0 && vals@.len() % (width as nat) == 0 ==> made is Ok && made->Ok_0@
                == GridView::<S>::from_cells(vals@, width as nat) && made->Ok_0@.wf(),
    {
        if width == 0 {
            return Err(InvalidParameter::ZeroWidth);
        }
        if vals.len() % width != 0 {
            return Err(InvalidParameter::Length);
        }
        let height: usize = vals.len() / width;
        let mut cells: Vec<S> = Vec::with_capacity(vals.len());
        let mut k: usize = 0;
        while k < vals.len()
            invariant
                k <= vals.len(),
                cells@ == vals@.take(k as int),
            decreases vals.len() - k,
        {
            cells.push(vals[k]);
            k += 1;
        }
        proof {
            assert(cells@ == vals@);
            GridView::<S>::lemma_from_cells_wf(vals@, width as nat);
        }
        Ok(Grid { cells, width, height })
    }

    /// The state that a draw gives a cell.
    pub fn sow(draw: u32, p_live: Probability) -> (state: S)
        ensures
            state == GridView::<S>::sown_cell(draw, p_live),
    {
        if p_live.accepts(draw) {
            S::active()
        } else {
            S::dead()
        }
    }

    /// Builds a grid of the given shape whose cells, row by row, are decided
    /// by `draws`: a cell is active where its draw lies below the
    /// probability, and dead where it does not.
    ///
    /// The probability must lie between zero and one, and there must be one
    /// draw for each cell.
    pub fn from_draws(draws: &[u32], width: usize, height: usize, p_live: Probability) -> (made:
        Result<Self, InvalidParameter>)
        ensures
            !p_live.valid() ==> made == Err::<Self, InvalidParameter>(InvalidParameter::Probability),
            p_live.valid() && draws@.len() != width * height ==> made == Err::<
                Self,
                InvalidParameter,
            >(InvalidParameter::Length),
            p_live.valid() && draws@.len() == width * height ==> made is Ok && made->Ok_0@
                == GridView::<S>::sown(draws@, width as nat, height as nat, p_live)
                && made->Ok_0@.wf(),
    {
        if !p_live.is_valid() {
            return Err(InvalidParameter::Probability);
        }
        assert(draws.len() == draws@.len());
        let ncells = width.checked_mul(height);
        let fills = match ncells {
            Some(n) => n == draws.len(),
            None => false,
        };
        if !fills {
            return Err(InvalidParameter::Length);
        }
        let mut cells: Vec<S> = Vec::with_capacity(draws.len());
        let mut k: usize = 0;
        while k < draws.len()
            invariant
                k <= draws.len(),
                cells@.len() == k,
                forall|n: int|
                    0 <= n < k ==> #[trigger] cells@[n] == GridView::<S>::sown_cell(
                        draws@[n],
                        p_live,
                    ),
            decreases draws.len() - k,
        {
            cells.push(Self::sow(draws[k], p_live));
            k += 1;
        }
        proof {
            assert(cells@ =~= GridView::<S>::sown(
                draws@,
                width as nat,
                height as nat,
                p_live,
            ).cells);
        }
        Ok(Grid { cells, width, height })
    }

    /// Builds a grid of the given shape and fills it at random: each cell is
    /// active with probability `p_live`, independently of the others, and
    /// dead otherwise.
    ///
    /// The probability must lie between zero and one. For each cell, row by
    /// row, one integer is drawn evenly from zero up to but not including the
    /// denominator; the cell is active where the draw lies below the
    /// numerator.
    pub fn new_random(width: usize, height: usize, p_live: Probability) -> (made: Result<
        Self,
        InvalidParameter,
    >)
        requires
            width * height <= usize::MAX,
        ensures
            !p_live.valid() ==> made == Err::<Self, InvalidParameter>(InvalidParameter::Probability),
            p_live.valid() ==> made is Ok && made->Ok_0@.wf() && made->Ok_0@.width == width
                && made->Ok_0@.height == height && made->Ok_0@.sown_at_random(p_live),
    {
        if !p_live.is_valid() {
            return Err(InvalidParameter::Probability);
        }
        let ncells: usize = width * height;
        let bound: u32 = p_live.denominator as u32;
        let mut draws: Vec<u32> = Vec::with_capacity(ncells);
        let mut rng = rand::thread_rng();
        let mut k: usize = 0;
        while k < ncells
            invariant
                bound > 0,
                k <= ncells,
                draws@.len() == k,
                forall|n: int| 0 <= n < k ==> #[trigger] draws@[n] < bound,
            decreases ncells - k,
        {
            draws.push(draw_below(&mut rng, bound));
            k += 1;
        }
        let made = Self::from_draws(draws.as_slice(), width, height, p_live);
        proof {
            assert(made->Ok_0@ == GridView::<S>::sown(
                draws@,
                made->Ok_0@.width,
                made->Ok_0@.height,
                p_live,
            ));
        }
        made
    }

    /// The number of columns.
    pub fn width(&self) -> (w: usize)
        ensures
            w == self@.width,
            self@.wf(),
    {
        proof {
            use_type_invariant(self);
        }
        self.width
    }

    /// The number of rows.
    pub fn height(&self) -> (h: usize)
        ensures
            h == self@.height,
            self@.wf(),
    {
        proof {
            use_type_invariant(self);
        }
        self.height
    }

    /// The state at column `i` of row `j`, for coordinates of any size.
    fn peek(&self, i: i128, j: i128) -> (state: S)
        ensures
            state == self@.cell(i as int, j as int),
    {
        proof {
            use_type_invariant(self);
        }
        if i < 0 || j < 0 || i >= self.width as i128 || j >= self.height as i128 {
            return S::dead();
        }
        let x: usize = i as usize;
        let y: usize = j as usize;
        proof {
            lemma_index_in_range(self.width as nat, self.height as nat, x as int, y as int);
            assert(0 <= y * self.width) by (nonlinear_arith);
        }
        self.cells[x + y * self.width]
    }

    /// The state at column `i` of row `j`. Every position off the board,
    /// negative coordinates included, holds the dead state.
    pub fn get(&self, i: i32, j: i32) -> (state: S)
        ensures
            state == self@.cell(i as int, j as int),
            !self@.contains(i as int, j as int) ==> state == S::dead_state(),
    {
        self.peek(i as i128, j as i128)
    }

    /// One if the cell at `(i, j)` is active, zero if not.
    fn tally(&self, i: i128, j: i128) -> (n: u8)
        ensures
            n == self@.active_at(i as int, j as int),
    {
        if self.peek(i, j).is_active() {
            1
        } else {
            0
        }
    }

    /// How many of the eight cells around `(i, j)` are active, for
    /// coordinates of any size.
    fn count_around(&self, i: i128, j: i128) -> (count: u8)
        requires
            i128::MIN < i < i128::MAX,
            i128::MIN < j < i128::MAX,
        ensures
            count == self@.active_neighbours(i as int, j as int),
            count <= 8,
    {
        let above: u8 = self.tally(i - 1, j - 1) + self.tally(i, j - 1) + self.tally(i + 1, j - 1);
        let beside: u8 = self.tally(i - 1, j) + self.tally(i + 1, j);
        let below: u8 = self.tally(i - 1, j + 1) + self.tally(i, j + 1) + self.tally(i + 1, j + 1);
        above + beside + below
    }

    /// How many of the eight cells around `(i, j)` are active. Neighbours off
    /// the board count as inactive, and `(i, j)` itself may lie off the board.
    pub fn count_neighbours(&self, i: i32, j: i32) -> (count: u8)
        ensures
            count == self@.active_neighbours(i as int, j as int),
            count <= 8,
    {
        self.count_around(i as i128, j as i128)
    }

    /// Replaces every cell by its successor. All successors are computed from
    /// the generation that the call found; the shape stays as it is.
    pub fn advance(&mut self)
        ensures
            old(self)@.wf(),
            final(self)@.wf(),
            final(self)@ == old(self)@.next(),
            final(self)@.width == old(self)@.width,
            final(self)@.height == old(self)@.height,
            final(self)@.cells.len() == old(self)@.cells.len(),
    {
        proof {
            use_type_invariant(&*self);
        }
        let ghost before = self@;
        let ghost w = self.width as int;
        let mut new_cells: Vec<S> = Vec::with_capacity(self.cells.len());
        let mut y: usize = 0;
        while y < self.height
            invariant
                self@ == before,
                w == self.width,
                before.wf(),
                y <= self.height,
                new_cells@.len() == y * w,
                forall|k: int|
                    0 <= k < new_cells@.len() ==> #[trigger] new_cells@[k] == before.next_cell(
                        k % w,
                        k / w,
                    ),
            decreases self.height - y,
        {
            let mut x: usize = 0;
            while x < self.width
                invariant
                    self@ == before,
                    w == self.width,
                    before.wf(),
                    y < self.height,
                    x <= self.width,
                    new_cells@.len() == y * w + x,
                    forall|k: int|
                        0 <= k < new_cells@.len() ==> #[trigger] new_cells@[k] == before.next_cell(
                            k % w,
                            k / w,
                        ),
                decreases self.width - x,
            {
                let count = self.count_around(x as i128, y as i128);
                let state = self.peek(x as i128, y as i128).next_state(count);
                proof {
                    lemma_index_in_range(self.width as nat, self.height as nat, x as int, y as int);
                }
                new_cells.push(state);
                x += 1;
            }
            proof {
                assert((y + 1) * w == y * w + w) by (nonlinear_arith);
            }
            y += 1;
        }
        proof {
            assert(self.height * w == self.width * self.height) by (nonlinear_arith)
                requires
                    w == self.width,
            ;
            assert(new_cells@ =~= before.next().cells);
        }
        self.cells = new_cells;
    }
}

} // verus!
