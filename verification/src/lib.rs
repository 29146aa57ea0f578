//! Conway's Game of Life on a fixed-size toroidal grid.
//!
//! A [`Universe`] owns a flat, row-major buffer of [`Cell`]s together with its
//! two dimensions, and advances one generation at a time under the classic
//! birth/survival rules, with neighbours wrapping around the grid edges.

use vstd::prelude::*;

pub mod laws;
pub mod render;
mod rng;

verus! {

/// The width of every grid the two fixed-size constructors build.
pub const DEFAULT_WIDTH: u32 = 160;

/// The height of every grid the two fixed-size constructors build.
pub const DEFAULT_HEIGHT: u32 = 90;

/// The state of one grid cell: dead or alive, nothing more.
#[derive(Clone, Copy, Debug, PartialEq, Eq, Structural)]
pub enum Cell {
    Dead,
    Alive,
}

/// The mathematical content of a [`Universe`]: its dimensions and the
/// row-major sequence of cells.
pub ghost struct GridView {
    pub width: nat,
    pub height: nat,
    pub cells: Seq<Cell>,
}

/// A toroidal Game of Life grid: `width * height` cells in row-major order.
pub struct Universe {
    width: u32,
    height: u32,
    cells: Vec<Cell>,
}

impl View for Universe {
    type V = GridView;

    closed spec fn view(&self) -> GridView {
        GridView {
            width: self.width as nat,
            height: self.height as nat,
            cells: self.cells@,
        }
    }
}

/// How much an individual cell contributes to a neighbour count.
pub open spec fn alive_weight(c: Cell) -> nat {
    if c is Alive {
        1
    } else {
        0
    }
}

/// The row or column one step towards zero, wrapping to `n - 1` at the edge.
/// For `i < n` this equals `(i + n - 1) % n`.
pub open spec fn wrap_dec(i: nat, n: nat) -> nat
    recommends
        i < n,
{
    if i == 0 {
        (n - 1) as nat
    } else {
        (i - 1) as nat
    }
}

/// The row or column one step away from zero, wrapping to `0` at the edge.
/// For `i < n` this equals `(i + 1) % n`.
pub open spec fn wrap_inc(i: nat, n: nat) -> nat
    recommends
        i < n,
{
    if i + 1 == n {
        0
    } else {
        i + 1
    }
}

impl Universe {
    /// The well-formedness invariant every constructor establishes and every
    /// method preserves: positive dimensions and a full row-major buffer.
    pub open spec fn wf(&self) -> bool {
        &&& 1 <= self@.width
        &&& 1 <= self@.height
        &&& self@.cells.len() == self@.width * self@.height
    }
}

/// The decrementing wrap is the modular formula of the toroidal topology:
/// for `i < n` it equals `(i + n - 1) % n`.
pub proof fn lemma_wrap_dec_is_mod(i: nat, n: nat)
    requires
        i < n,
    ensures
        wrap_dec(i, n) == (i + n - 1) % (n as int),
{
    if i == 0 {
        vstd::arithmetic::div_mod::lemma_small_mod((n - 1) as nat, n);
    } else {
        vstd::arithmetic::div_mod::lemma_mod_multiples_vanish(1, i - 1, n as int);
        vstd::arithmetic::div_mod::lemma_small_mod((i - 1) as nat, n);
    }
}

/// The incrementing wrap is the modular formula of the toroidal topology:
/// for `i < n` it equals `(i + 1) % n`.
pub proof fn lemma_wrap_inc_is_mod(i: nat, n: nat)
    requires
        i < n,
    ensures
        wrap_inc(i, n) == ((i + 1) as int) % (n as int),
{
    if i + 1 == n {
        vstd::arithmetic::div_mod::lemma_mod_self_0(n as int);
    } else {
        vstd::arithmetic::div_mod::lemma_small_mod((i + 1) as nat, n);
    }
}

/// A row-major flat index stays inside a `width * height` buffer.
pub proof fn lemma_index_in_grid(width: nat, height: nat, row: nat, col: nat) by (nonlinear_arith)
    requires
        row < height,
        col < width,
    ensures
        row * width + col < width * height,
{
}

/// Row-major flat indexing is injective on in-range coordinates.
pub proof fn lemma_flat_index_injective(
    width: nat,
    r1: nat,
    c1: nat,
    r2: nat,
    c2: nat,
) by (nonlinear_arith)
    requires
        c1 < width,
        c2 < width,
    ensures
        (r1 * width + c1 == r2 * width + c2) <==> (r1 == r2 && c1 == c2),
{
}

fn wrap_dec_u32(i: u32, n: u32) -> (r: u32)
    requires
        i < n,
    ensures
        r as nat == wrap_dec(i as nat, n as nat),
        r < n,
{
    if i == 0 {
        n - 1
    } else {
        i - 1
    }
}

fn wrap_inc_u32(i: u32, n: u32) -> (r: u32)
    requires
        i < n,
    ensures
        r as nat == wrap_inc(i as nat, n as nat),
        r < n,
{
    if i == n - 1 {
        0
    } else {
        i + 1
    }
}

/// The cell stored at `(row, col)` of a row-major buffer of the given width.
pub open spec fn cell_at(cells: Seq<Cell>, width: nat, row: nat, col: nat) -> Cell {
    cells[(row * width + col) as int]
}

/// The number of alive cells among the eight toroidal neighbours of
/// `(row, col)`: the cell itself is excluded, rows and columns wrap.
pub open spec fn neighbor_count(cells: Seq<Cell>, width: nat, height: nat, row: nat, col: nat) -> nat {
    let up = wrap_dec(row, height);
    let down = wrap_inc(row, height);
    let left = wrap_dec(col, width);
    let right = wrap_inc(col, width);
    alive_weight(cell_at(cells, width, up, left)) + alive_weight(cell_at(cells, width, up, col))
        + alive_weight(cell_at(cells, width, up, right)) + alive_weight(
        cell_at(cells, width, row, left),
    ) + alive_weight(cell_at(cells, width, row, right)) + alive_weight(
        cell_at(cells, width, down, left),
    ) + alive_weight(cell_at(cells, width, down, col)) + alive_weight(
        cell_at(cells, width, down, right),
    )
}

/// Conway's transition rule for one cell: an alive cell survives with two or
/// three alive neighbours and otherwise dies (under- or overpopulation); a
/// dead cell comes alive with exactly three alive neighbours (reproduction).
pub open spec fn next_cell(c: Cell, live_neighbors: nat) -> Cell {
    match c {
        Cell::Alive => if live_neighbors < 2 {
            Cell::Dead
        } else if live_neighbors <= 3 {
            Cell::Alive
        } else {
            Cell::Dead
        },
        Cell::Dead => if live_neighbors == 3 {
            Cell::Alive
        } else {
            Cell::Dead
        },
    }
}

/// One whole generation: every cell of the buffer is replaced by
/// [`next_cell`] of its current state and its current neighbour count,
/// all read from the same snapshot.
pub open spec fn step(cells: Seq<Cell>, width: nat, height: nat) -> Seq<Cell>
    recommends
        1 <= width,
{
    Seq::new(
        cells.len(),
        |i: int|
            next_cell(
                cells[i],
                neighbor_count(cells, width, height, (i / width as int) as nat, (i % width as int) as nat),
            ),
    )
}

/// `n` generations of [`step`].
pub open spec fn step_n(cells: Seq<Cell>, width: nat, height: nat, n: nat) -> Seq<Cell>
    recommends
        1 <= width,
    decreases n,
{
    if n == 0 {
        cells
    } else {
        step(step_n(cells, width, height, (n - 1) as nat), width, height)
    }
}

/// A generation advance never changes the size of the buffer: a grid that
/// holds `width * height` cells still does after any number of [`step`]s.
pub proof fn lemma_step_preserves_len(cells: Seq<Cell>, width: nat, height: nat, n: nat)
    ensures
        step(cells, width, height).len() == cells.len(),
        step_n(cells, width, height, n).len() == cells.len(),
    decreases n,
{
    if n > 0 {
        lemma_step_preserves_len(cells, width, height, (n - 1) as nat);
    }
}

/// What [`step`] holds at a row-major position: the flat index `row * width
/// + col` decodes back to `(row, col)`, so the stepped buffer holds exactly
/// the transition of the cell at that position.
pub proof fn lemma_step_at(cells: Seq<Cell>, width: nat, height: nat, row: nat, col: nat)
    requires
        1 <= width,
        row < height,
        col < width,
        cells.len() == width * height,
    ensures
        step(cells, width, height)[(row * width + col) as int] == next_cell(
            cell_at(cells, width, row, col),
            neighbor_count(cells, width, height, row, col),
        ),
{
    lemma_index_in_grid(width, height, row, col);
    let i = (row * width + col) as int;
    vstd::arithmetic::div_mod::lemma_fundamental_div_mod_converse(
        i,
        width as int,
        row as int,
        col as int,
    );
}

/// The cell the default constructor puts at flat index `i`: alive exactly
/// when `i` is divisible by two or by seven.
pub open spec fn seed_cell(i: nat) -> Cell {
    if i % 2 == 0 || i % 7 == 0 {
        Cell::Alive
    } else {
        Cell::Dead
    }
}

/// The whole seed pattern of the default constructor, row-major.
pub open spec fn default_grid() -> Seq<Cell> {
    Seq::new((DEFAULT_WIDTH * DEFAULT_HEIGHT) as nat, |i: int| seed_cell(i as nat))
}

fn cell_weight(c: Cell) -> (w: u8)
    ensures
        w as nat == alive_weight(c),
{
    match c {
        Cell::Alive => 1,
        Cell::Dead => 0,
    }
}

impl Universe {
    /// The flat row-major index of `(row, column)`.
    fn get_index(&self, row: u32, column: u32) -> (idx: usize)
        requires
            self.wf(),
            row < self@.height,
            column < self@.width,
        ensures
            idx as nat == row as nat * self@.width + column as nat,
            idx < self@.cells.len(),
    {
        proof {
            lemma_index_in_grid(self@.width, self@.height, row as nat, column as nat);
        }
        // Reading the length puts the flat index below usize::MAX.
        let n = self.cells.len();
        (row as usize) * (self.width as usize) + (column as usize)
    }

    /// How many of the eight toroidal neighbours of `(row, column)` are alive.
    fn live_neighbor_count(&self, row: u32, column: u32) -> (count: u8)
        requires
            self.wf(),
            row < self@.height,
            column < self@.width,
        ensures
            count as nat == neighbor_count(self@.cells, self@.width, self@.height, row as nat, column as nat),
            count <= 8,
    {
        let up = wrap_dec_u32(row, self.height);
        let down = wrap_inc_u32(row, self.height);
        let left = wrap_dec_u32(column, self.width);
        let right = wrap_inc_u32(column, self.width);
        let mut count: u8 = 0;
        count += cell_weight(self.cells[self.get_index(up, left)]);
        count += cell_weight(self.cells[self.get_index(up, column)]);
        count += cell_weight(self.cells[self.get_index(up, right)]);
        count += cell_weight(self.cells[self.get_index(row, left)]);
        count += cell_weight(self.cells[self.get_index(row, right)]);
        count += cell_weight(self.cells[self.get_index(down, left)]);
        count += cell_weight(self.cells[self.get_index(down, column)]);
        count += cell_weight(self.cells[self.get_index(down, right)]);
        count
    }

    /// Advance the grid by one generation.
    ///
    /// The whole next generation is computed from a snapshot of the current
    /// one into a fresh buffer, which replaces the old buffer only once it is
    /// complete: no cell's transition ever reads an already-updated cell.
    #[verifier::loop_isolation(false)]
    pub fn tick(&mut self)
        requires
            old(self).wf(),
        ensures
            final(self).wf(),
            final(self)@.width == old(self)@.width,
            final(self)@.height == old(self)@.height,
            final(self)@.cells == step(old(self)@.cells, old(self)@.width, old(self)@.height),
    {
        let width = self.width;
        let height = self.height;
        let ghost w = self@.width;
        let ghost h = self@.height;
        let ghost snapshot = self@.cells;
        let mut next: Vec<Cell> = Vec::new();
        let mut row: u32 = 0;
        while row < height
            invariant
                row <= height,
                next@.len() == row as nat * w,
                forall|i: int| 0 <= i < next@.len() ==> next@[i] == step(snapshot, w, h)[i],
            decreases height - row,
        {
            let mut column: u32 = 0;
            while column < width
                invariant
                    column <= width,
                    next@.len() == row as nat * w + column as nat,
                    forall|i: int| 0 <= i < next@.len() ==> next@[i] == step(snapshot, w, h)[i],
                decreases width - column,
            {
                let index = self.get_index(row, column);
                let cell = self.cells[index];
                let live_neighbors = self.live_neighbor_count(row, column);

                let next_state = match cell {
                    Cell::Alive => if live_neighbors < 2 {
                        // Underpopulation: fewer than two alive neighbours.
                        Cell::Dead
                    } else if live_neighbors <= 3 {
                        // Stable: two or three alive neighbours.
                        Cell::Alive
                    } else {
                        // Overpopulation: more than three alive neighbours.
                        Cell::Dead
                    },
                    Cell::Dead => if live_neighbors == 3 {
                        // Reproduction: exactly three alive neighbours.
                        Cell::Alive
                    } else {
                        Cell::Dead
                    },
                };

                next.push(next_state);
                proof {
                    lemma_step_at(snapshot, w, h, row as nat, column as nat);
                }
                column += 1;
            }
            proof {
                assert((row as nat + 1) * w == row as nat * w + w) by (nonlinear_arith);
            }
            row += 1;
        }
        proof {
            assert(h * w == w * h) by (nonlinear_arith);
            assert(next@ =~= step(snapshot, w, h));
        }
        self.cells = next;
    }
}

impl Default for Universe {
    /// The deterministic 160 x 90 seed grid, cell by cell [`seed_cell`].
    fn default() -> (u: Universe)
        ensures
            u.wf(),
            u@.width == DEFAULT_WIDTH,
            u@.height == DEFAULT_HEIGHT,
            u@.cells == default_grid(),
    {
        let width = DEFAULT_WIDTH;
        let height = DEFAULT_HEIGHT;
        let total = width * height;
        let mut cells: Vec<Cell> = Vec::new();
        let mut i: u32 = 0;
        while i < total
            invariant
                i <= total,
                total == DEFAULT_WIDTH * DEFAULT_HEIGHT,
                cells@.len() == i,
                forall|j: int| 0 <= j < i ==> cells@[j] == seed_cell(j as nat),
            decreases total - i,
        {
            if i % 2 == 0 || i % 7 == 0 {
                cells.push(Cell::Alive);
            } else {
                cells.push(Cell::Dead);
            }
            i += 1;
        }
        proof {
            assert(cells@ =~= default_grid());
        }
        Universe { width, height, cells }
    }
}

impl Universe {
    /// Build the fixed 160 x 90 grid with the deterministic seed pattern:
    /// the cell at flat index `i` is alive exactly when `i % 2 == 0` or
    /// `i % 7 == 0`.
    pub fn new() -> (u: Universe)
        ensures
            u.wf(),
            u@.width == DEFAULT_WIDTH,
            u@.height == DEFAULT_HEIGHT,
            u@.cells == default_grid(),
    {
        Universe::default()
    }

    /// Build a fixed 160 x 90 grid in which every cell is independently alive
    /// with probability one half. Only the dimensions are promised: the
    /// contents are random, and two calls are unrelated.
    pub fn random() -> (u: Universe)
        ensures
            u.wf(),
            u@.width == DEFAULT_WIDTH,
            u@.height == DEFAULT_HEIGHT,
    {
        let width = DEFAULT_WIDTH;
        let height = DEFAULT_HEIGHT;
        let total = width * height;
        let mut cells: Vec<Cell> = Vec::new();
        let mut i: u32 = 0;
        while i < total
            invariant
                i <= total,
                cells@.len() == i,
            decreases total - i,
        {
            if rng::random_bool() {
                cells.push(Cell::Alive);
            } else {
                cells.push(Cell::Dead);
            }
            i += 1;
        }
        Universe { width, height, cells }
    }

    /// Build a grid from explicit dimensions and a row-major buffer.
    ///
    /// Returns the universe exactly when the dimensions are positive and the
    /// buffer holds exactly `width * height` cells, and `None` otherwise.
    pub fn from_cells(width: u32, height: u32, cells: Vec<Cell>) -> (r: Option<Universe>)
        ensures
            r is Some <==> (1 <= width && 1 <= height && cells@.len() == width as nat * height as nat),
            r is Some ==> {
                &&& r->Some_0.wf()
                &&& r->Some_0@.width == width
                &&& r->Some_0@.height == height
                &&& r->Some_0@.cells == cells@
            },
    {
        let len = cells.len();
        proof {
            assert((width as int) * (height as int) <= 0xffff_ffff * 0xffff_ffff) by (nonlinear_arith)
                requires
                    width as int <= 0xffff_ffff,
                    height as int <= 0xffff_ffff,
            {
            }
        }
        if width >= 1 && height >= 1 && (len as u64) == (width as u64) * (height as u64) {
            Some(Universe { width, height, cells })
        } else {
            None
        }
    }

    /// The fixed width of the grid.
    pub fn width(&self) -> (w: u32)
        ensures
            w as nat == self@.width,
    {
        self.width
    }

    /// The fixed height of the grid.
    pub fn height(&self) -> (h: u32)
        ensures
            h as nat == self@.height,
    {
        self.height
    }

    /// A read-only view of the current generation's row-major cell buffer.
    /// It is only swapped wholesale between ticks, never torn mid-read.
    pub fn cells(&self) -> (r: &Vec<Cell>)
        ensures
            r@ == self@.cells,
    {
        &self.cells
    }
}

} // verus!
