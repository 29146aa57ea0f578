//! Grid-level laws of the transition engine: determinism of the default
//! seed, toroidal wrap at the edges, and the classic behaviour of small
//! patterns (a lone cell, a still-life block, a blinker).

use vstd::prelude::*;
use crate::{
    cell_at, default_grid, lemma_flat_index_injective, lemma_index_in_grid, lemma_step_at,
    neighbor_count, next_cell, step, step_n, wrap_dec, wrap_inc, Cell, Universe, DEFAULT_HEIGHT,
    DEFAULT_WIDTH,
};

verus! {

/// A flat index decodes to a unique in-range `(row, col)` pair.
proof fn lemma_flat_to_rowcol(width: nat, height: nat, i: int)
    requires
        1 <= width,
        0 <= i < width * height,
    ensures
        0 <= (i % width as int) && (i % width as int) < width,
        0 <= (i / width as int) && (i / width as int) < height,
        i == (i / width as int) * width + (i % width as int),
{
    vstd::arithmetic::div_mod::lemma_fundamental_div_mod(i, width as int);
    vstd::arithmetic::div_mod::lemma_mod_bound(i, width as int);
    let r = i / width as int;
    let c = i % width as int;
    assert(width as int * r == r * width as int) by (nonlinear_arith);
    assert(0 <= r < height) by (nonlinear_arith)
        requires
            0 <= i < width * height,
            i == width as int * r + c,
            0 <= c < width,
            1 <= width,
    {
    }
}

/// Determinism of the default constructor: any two universes that meet its
/// contract are cell-for-cell identical.
pub proof fn lemma_default_deterministic(a: Universe, b: Universe)
    requires
        a@.cells == default_grid(),
        b@.cells == default_grid(),
        a@.width == DEFAULT_WIDTH,
        b@.width == DEFAULT_WIDTH,
        a@.height == DEFAULT_HEIGHT,
        b@.height == DEFAULT_HEIGHT,
    ensures
        a@.width == b@.width,
        a@.height == b@.height,
        a@.cells == b@.cells,
        forall|i: int| 0 <= i < a@.cells.len() ==> a@.cells[i] == b@.cells[i],
{
}

/// The transition rules, one by one: underpopulation and overpopulation kill
/// an alive cell, two or three neighbours sustain it, exactly three
/// neighbours revive a dead cell, and any other dead cell stays dead.
pub proof fn lemma_transition_rules(live_neighbors: nat)
    ensures
        live_neighbors < 2 ==> next_cell(Cell::Alive, live_neighbors) == Cell::Dead,
        2 <= live_neighbors <= 3 ==> next_cell(Cell::Alive, live_neighbors) == Cell::Alive,
        live_neighbors > 3 ==> next_cell(Cell::Alive, live_neighbors) == Cell::Dead,
        next_cell(Cell::Dead, live_neighbors) == (if live_neighbors == 3 {
            Cell::Alive
        } else {
            Cell::Dead
        }),
{
}

/// A grid that is dead everywhere except for one alive cell at `(row, col)`.
pub open spec fn single_alive_grid(width: nat, height: nat, row: nat, col: nat) -> Seq<Cell> {
    Seq::new(
        width * height,
        |i: int| if i == row * width + col {
            Cell::Alive
        } else {
            Cell::Dead
        },
    )
}

proof fn lemma_single_lookup(width: nat, height: nat, row: nat, col: nat, r: nat, c: nat)
    requires
        row < height,
        col < width,
        r < height,
        c < width,
    ensures
        cell_at(single_alive_grid(width, height, row, col), width, r, c) == (if r == row && c
            == col {
            Cell::Alive
        } else {
            Cell::Dead
        }),
{
    lemma_index_in_grid(width, height, r, c);
    lemma_flat_index_injective(width, r, c, row, col);
}

/// Underpopulation: an isolated alive cell has no alive neighbours, and is
/// dead after one generation.
pub proof fn lemma_underpopulation(width: nat, height: nat, row: nat, col: nat)
    requires
        2 <= width,
        2 <= height,
        row < height,
        col < width,
    ensures
        neighbor_count(single_alive_grid(width, height, row, col), width, height, row, col) == 0,
        step(single_alive_grid(width, height, row, col), width, height)[(row * width + col) as int]
            == Cell::Dead,
{
    let g = single_alive_grid(width, height, row, col);
    let up = wrap_dec(row, height);
    let down = wrap_inc(row, height);
    let left = wrap_dec(col, width);
    let right = wrap_inc(col, width);
    lemma_single_lookup(width, height, row, col, up, left);
    lemma_single_lookup(width, height, row, col, up, col);
    lemma_single_lookup(width, height, row, col, up, right);
    lemma_single_lookup(width, height, row, col, row, left);
    lemma_single_lookup(width, height, row, col, row, right);
    lemma_single_lookup(width, height, row, col, down, left);
    lemma_single_lookup(width, height, row, col, down, col);
    lemma_single_lookup(width, height, row, col, down, right);
    lemma_single_lookup(width, height, row, col, row, col);
    lemma_step_at(g, width, height, row, col);
}

/// Toroidal wrap: on a grid that is dead except at `(0, 0)`, each of the
/// eight cells whose neighbourhood reaches `(0, 0)` across an edge or a
/// corner counts exactly one alive neighbour.
pub proof fn lemma_toroidal_wrap(width: nat, height: nat)
    requires
        3 <= width,
        3 <= height,
    ensures
        ({
            let g = single_alive_grid(width, height, 0, 0);
            &&& neighbor_count(g, width, height, (height - 1) as nat, (width - 1) as nat) == 1
            &&& neighbor_count(g, width, height, (height - 1) as nat, 0) == 1
            &&& neighbor_count(g, width, height, (height - 1) as nat, 1) == 1
            &&& neighbor_count(g, width, height, 0, (width - 1) as nat) == 1
            &&& neighbor_count(g, width, height, 0, 1) == 1
            &&& neighbor_count(g, width, height, 1, (width - 1) as nat) == 1
            &&& neighbor_count(g, width, height, 1, 0) == 1
            &&& neighbor_count(g, width, height, 1, 1) == 1
        }),
{
    let g = single_alive_grid(width, height, 0, 0);
    assert forall|r: nat, c: nat| r < height && c < width implies #[trigger] cell_at(g, width, r, c)
        == (if r == 0 && c == 0 {
        Cell::Alive
    } else {
        Cell::Dead
    }) by {
        lemma_single_lookup(width, height, 0, 0, r, c);
    }
}

/// A grid that is dead everywhere except for a two-by-two block of alive
/// cells whose top-left corner is `(row, col)`.
pub open spec fn block_grid(width: nat, height: nat, row: nat, col: nat) -> Seq<Cell> {
    Seq::new(
        width * height,
        |i: int| if i == row * width + col || i == row * width + col + 1 || i == (row + 1) * width
            + col || i == (row + 1) * width + col + 1 {
            Cell::Alive
        } else {
            Cell::Dead
        },
    )
}

proof fn lemma_block_lookup(width: nat, height: nat, row: nat, col: nat, r: nat, c: nat)
    requires
        row + 1 < height,
        col + 1 < width,
        r < height,
        c < width,
    ensures
        cell_at(block_grid(width, height, row, col), width, r, c) == (if (r == row || r == row + 1)
            && (c == col || c == col + 1) {
            Cell::Alive
        } else {
            Cell::Dead
        }),
{
    lemma_index_in_grid(width, height, r, c);
    lemma_flat_index_injective(width, r, c, row, col);
    lemma_flat_index_injective(width, r, c, row, (col + 1) as nat);
    lemma_flat_index_injective(width, r, c, (row + 1) as nat, col);
    lemma_flat_index_injective(width, r, c, (row + 1) as nat, (col + 1) as nat);
}

#[verifier::rlimit(60)]
proof fn lemma_block_fixed(width: nat, height: nat, row: nat, col: nat)
    requires
        1 <= row,
        row + 2 < height,
        1 <= col,
        col + 2 < width,
    ensures
        step(block_grid(width, height, row, col), width, height) =~= block_grid(
            width,
            height,
            row,
            col,
        ),
{
    let g = block_grid(width, height, row, col);
    assert forall|r: nat, c: nat| r < height && c < width implies #[trigger] cell_at(g, width, r, c)
        == (if (r == row || r == row + 1) && (c == col || c == col + 1) {
        Cell::Alive
    } else {
        Cell::Dead
    }) by {
        lemma_block_lookup(width, height, row, col, r, c);
    }
    assert forall|i: int| 0 <= i < g.len() implies step(g, width, height)[i] == g[i] by {
        lemma_flat_to_rowcol(width, height, i);
        let r = (i / width as int) as nat;
        let c = (i % width as int) as nat;
        lemma_step_at(g, width, height, r, c);
    }
}

/// Still life: a two-by-two block of alive cells with a dead border that
/// wrap cannot bridge is unchanged by any number of generations. Each of its
/// four cells keeps exactly three alive neighbours, and no dead cell around
/// it ever sees three.
pub proof fn lemma_block_still_life(width: nat, height: nat, row: nat, col: nat, n: nat)
    requires
        1 <= row,
        row + 2 < height,
        1 <= col,
        col + 2 < width,
    ensures
        step(block_grid(width, height, row, col), width, height) == block_grid(
            width,
            height,
            row,
            col,
        ),
        step_n(block_grid(width, height, row, col), width, height, n) == block_grid(
            width,
            height,
            row,
            col,
        ),
    decreases n,
{
    lemma_block_fixed(width, height, row, col);
    if n > 0 {
        lemma_block_still_life(width, height, row, col, (n - 1) as nat);
    }
}

/// A grid that is dead everywhere except for three alive cells in a
/// horizontal line centred at `(row, col)`.
pub open spec fn horizontal_blinker_grid(width: nat, height: nat, row: nat, col: nat) -> Seq<
    Cell,
>
    recommends
        1 <= col,
{
    Seq::new(
        width * height,
        |i: int| if i == row * width + col - 1 || i == row * width + col || i == row * width + col
            + 1 {
            Cell::Alive
        } else {
            Cell::Dead
        },
    )
}

/// A grid that is dead everywhere except for three alive cells in a
/// vertical line centred at `(row, col)`.
pub open spec fn vertical_blinker_grid(width: nat, height: nat, row: nat, col: nat) -> Seq<Cell>
    recommends
        1 <= row,
{
    Seq::new(
        width * height,
        |i: int| if i == (row - 1) * width + col || i == row * width + col || i == (row + 1)
            * width + col {
            Cell::Alive
        } else {
            Cell::Dead
        },
    )
}

proof fn lemma_h_blinker_lookup(width: nat, height: nat, row: nat, col: nat, r: nat, c: nat)
    requires
        1 <= col,
        col + 1 < width,
        row < height,
        r < height,
        c < width,
    ensures
        cell_at(horizontal_blinker_grid(width, height, row, col), width, r, c) == (if r == row && (
        c + 1 == col || c == col || c == col + 1) {
            Cell::Alive
        } else {
            Cell::Dead
        }),
{
    lemma_index_in_grid(width, height, r, c);
    lemma_flat_index_injective(width, r, c, row, (col - 1) as nat);
    lemma_flat_index_injective(width, r, c, row, col);
    lemma_flat_index_injective(width, r, c, row, (col + 1) as nat);
}

proof fn lemma_v_blinker_lookup(width: nat, height: nat, row: nat, col: nat, r: nat, c: nat)
    requires
        1 <= row,
        row + 1 < height,
        col < width,
        r < height,
        c < width,
    ensures
        cell_at(vertical_blinker_grid(width, height, row, col), width, r, c) == (if c == col && (r
            + 1 == row || r == row || r == row + 1) {
            Cell::Alive
        } else {
            Cell::Dead
        }),
{
    lemma_index_in_grid(width, height, r, c);
    lemma_flat_index_injective(width, r, c, (row - 1) as nat, col);
    lemma_flat_index_injective(width, r, c, row, col);
    lemma_flat_index_injective(width, r, c, (row + 1) as nat, col);
}

#[verifier::rlimit(60)]
proof fn lemma_blinker_h_to_v(width: nat, height: nat, row: nat, col: nat)
    requires
        2 <= row,
        row + 2 < height,
        2 <= col,
        col + 2 < width,
    ensures
        step(horizontal_blinker_grid(width, height, row, col), width, height)
            =~= vertical_blinker_grid(width, height, row, col),
{
    let gh = horizontal_blinker_grid(width, height, row, col);
    let gv = vertical_blinker_grid(width, height, row, col);
    assert forall|r: nat, c: nat| r < height && c < width implies #[trigger] cell_at(
        gh,
        width,
        r,
        c,
    ) == (if r == row && (c + 1 == col || c == col || c == col + 1) {
        Cell::Alive
    } else {
        Cell::Dead
    }) by {
        lemma_h_blinker_lookup(width, height, row, col, r, c);
    }
    assert forall|i: int| 0 <= i < gh.len() implies step(gh, width, height)[i] == gv[i] by {
        lemma_flat_to_rowcol(width, height, i);
        let r = (i / width as int) as nat;
        let c = (i % width as int) as nat;
        lemma_step_at(gh, width, height, r, c);
        lemma_v_blinker_lookup(width, height, row, col, r, c);
    }
}

#[verifier::rlimit(60)]
proof fn lemma_blinker_v_to_h(width: nat, height: nat, row: nat, col: nat)
    requires
        2 <= row,
        row + 2 < height,
        2 <= col,
        col + 2 < width,
    ensures
        step(vertical_blinker_grid(width, height, row, col), width, height)
            =~= horizontal_blinker_grid(width, height, row, col),
{
    let gh = horizontal_blinker_grid(width, height, row, col);
    let gv = vertical_blinker_grid(width, height, row, col);
    assert forall|r: nat, c: nat| r < height && c < width implies #[trigger] cell_at(
        gv,
        width,
        r,
        c,
    ) == (if c == col && (r + 1 == row || r == row || r == row + 1) {
        Cell::Alive
    } else {
        Cell::Dead
    }) by {
        lemma_v_blinker_lookup(width, height, row, col, r, c);
    }
    assert forall|i: int| 0 <= i < gv.len() implies step(gv, width, height)[i] == gh[i] by {
        lemma_flat_to_rowcol(width, height, i);
        let r = (i / width as int) as nat;
        let c = (i % width as int) as nat;
        lemma_step_at(gv, width, height, r, c);
        lemma_h_blinker_lookup(width, height, row, col, r, c);
    }
}

/// The blinker oscillates with period two: a horizontal three-cell line far
/// enough from the edges becomes the vertical line through the same centre
/// after one generation, and is back after two.
pub proof fn lemma_blinker_oscillates(width: nat, height: nat, row: nat, col: nat)
    requires
        2 <= row,
        row + 2 < height,
        2 <= col,
        col + 2 < width,
    ensures
        step(horizontal_blinker_grid(width, height, row, col), width, height)
            == vertical_blinker_grid(width, height, row, col),
        step(vertical_blinker_grid(width, height, row, col), width, height)
            == horizontal_blinker_grid(width, height, row, col),
        step_n(horizontal_blinker_grid(width, height, row, col), width, height, 2)
            == horizontal_blinker_grid(width, height, row, col),
{
    let gh = horizontal_blinker_grid(width, height, row, col);
    let gv = vertical_blinker_grid(width, height, row, col);
    lemma_blinker_h_to_v(width, height, row, col);
    lemma_blinker_v_to_h(width, height, row, col);
    assert(step_n(gh, width, height, 0) == gh);
    assert(step_n(gh, width, height, 1) == step(step_n(gh, width, height, 0), width, height));
    assert(step_n(gh, width, height, 2) == step(step_n(gh, width, height, 1), width, height));
}

} // verus!
