//! Text rendering of a grid: one line per row, one glyph per cell.

use vstd::prelude::*;
use vstd::string::StringExecFns;
use crate::{cell_at, lemma_index_in_grid, Cell, Universe};

verus! {

/// The glyph a rendered grid shows for one cell: a filled square for an
/// alive cell, an empty square for a dead one.
pub open spec fn glyph(c: Cell) -> char {
    if c is Alive {
        '◼'
    } else {
        '◻'
    }
}

/// The glyphs of one rendered row, left to right.
pub open spec fn row_chars(cells: Seq<Cell>, width: nat, row: nat) -> Seq<char> {
    Seq::new(width, |j: int| glyph(cell_at(cells, width, row, j as nat)))
}

/// The first `rows` rendered lines: each row's glyphs followed by a newline.
pub open spec fn rendered_upto(cells: Seq<Cell>, width: nat, rows: nat) -> Seq<char>
    decreases rows,
{
    if rows == 0 {
        Seq::empty()
    } else {
        rendered_upto(cells, width, (rows - 1) as nat) + row_chars(cells, width, (rows - 1) as nat)
            + seq!['\n']
    }
}

/// The full rendering: `height` newline-terminated lines of `width` glyphs,
/// top to bottom.
pub open spec fn rendered(cells: Seq<Cell>, width: nat, height: nat) -> Seq<char> {
    rendered_upto(cells, width, height)
}

/// A rendering has exactly `height` lines of `width + 1` characters each,
/// the newline included.
pub proof fn lemma_rendered_len(cells: Seq<Cell>, width: nat, height: nat)
    ensures
        rendered(cells, width, height).len() == height * (width + 1),
    decreases height,
{
    if height == 0 {
        assert(0 * (width + 1) == 0) by (nonlinear_arith);
    } else {
        lemma_rendered_len(cells, width, (height - 1) as nat);
        assert(height * (width + 1) == (height - 1) * (width + 1) + (width + 1))
            by (nonlinear_arith);
    }
}

/// Positional correctness of the glyphs: within line `row`, the character at
/// column `col` is the glyph of the cell at `(row, col)`.
pub proof fn lemma_rendered_glyph_at(cells: Seq<Cell>, width: nat, height: nat, row: nat, col: nat)
    requires
        row < height,
        col < width,
    ensures
        rendered(cells, width, height)[(row * (width + 1) + col) as int] == glyph(
            cell_at(cells, width, row, col),
        ),
    decreases height,
{
    let prev = rendered_upto(cells, width, (height - 1) as nat);
    let rc = row_chars(cells, width, (height - 1) as nat);
    lemma_rendered_len(cells, width, (height - 1) as nat);
    if row == height - 1 {
        assert(row * (width + 1) + col == prev.len() + col);
        assert((prev + rc + seq!['\n'])[(prev.len() + col) as int] == rc[col as int]);
    } else {
        lemma_rendered_glyph_at(cells, width, (height - 1) as nat, row, col);
        lemma_index_in_grid(width + 1, (height - 1) as nat, row, col);
        assert((width + 1) * (height - 1) == (height - 1) * (width + 1)) by (nonlinear_arith);
        assert(row * (width + 1) + col < prev.len());
        assert((prev + rc + seq!['\n'])[(row * (width + 1) + col) as int] == prev[(row * (width
            + 1) + col) as int]);
    }
}

/// Every line ends in a newline: the character after the `width` glyphs of
/// line `row` is `'\n'`.
pub proof fn lemma_rendered_newline_at(cells: Seq<Cell>, width: nat, height: nat, row: nat)
    requires
        row < height,
    ensures
        rendered(cells, width, height)[(row * (width + 1) + width) as int] == '\n',
    decreases height,
{
    let prev = rendered_upto(cells, width, (height - 1) as nat);
    let rc = row_chars(cells, width, (height - 1) as nat);
    lemma_rendered_len(cells, width, (height - 1) as nat);
    if row == height - 1 {
        assert(row * (width + 1) + width == prev.len() + width);
        assert((prev + rc + seq!['\n'])[(prev.len() + width) as int] == '\n');
    } else {
        lemma_rendered_newline_at(cells, width, (height - 1) as nat, row);
        assert(row * (width + 1) + width < (height - 1) * (width + 1)) by (nonlinear_arith)
            requires
                row + 1 < height,
        {
        }
        assert((prev + rc + seq!['\n'])[(row * (width + 1) + width) as int] == prev[(row * (width
            + 1) + width) as int]);
    }
}

impl Universe {
    /// A human-readable rendering of the current generation: one line per
    /// row, one glyph per cell, rows top to bottom, each line ending in a
    /// newline.
    #[verifier::loop_isolation(false)]
    pub fn render_string(&self) -> (out: String)
        requires
            self.wf(),
        ensures
            out@ == rendered(self@.cells, self@.width, self@.height),
    {
        let width = self.width();
        let height = self.height();
        let cells = self.cells();
        // Reading the length puts the flat indices below usize::MAX.
        let n = cells.len();
        let ghost w = self@.width;
        let ghost h = self@.height;
        let ghost grid = self@.cells;
        let mut out = String::new();
        let mut row: u32 = 0;
        while row < height
            invariant
                row <= height,
                out@ == rendered_upto(grid, w, row as nat),
            decreases height - row,
        {
            let mut col: u32 = 0;
            while col < width
                invariant
                    col <= width,
                    out@ == rendered_upto(grid, w, row as nat) + row_chars(grid, w, row as nat).take(
                        col as int,
                    ),
                decreases width - col,
            {
                proof {
                    lemma_index_in_grid(w, h, row as nat, col as nat);
                }
                let idx = (row as usize) * (width as usize) + (col as usize);
                if cells[idx] == Cell::Alive {
                    proof {
                        reveal_strlit("◼");
                    }
                    out.append("◼");
                } else {
                    proof {
                        reveal_strlit("◻");
                    }
                    out.append("◻");
                }
                proof {
                    let rc = row_chars(grid, w, row as nat);
                    assert(rc.take(col + 1) =~= rc.take(col as int).push(
                        glyph(cell_at(grid, w, row as nat, col as nat)),
                    ));
                    assert(out@ =~= rendered_upto(grid, w, row as nat) + rc.take(col + 1));
                }
                col += 1;
            }
            proof {
                reveal_strlit("\n");
            }
            out.append("\n");
            proof {
                let rc = row_chars(grid, w, row as nat);
                assert(rc.take(width as int) =~= rc);
                assert(out@ =~= rendered_upto(grid, w, (row + 1) as nat));
            }
            row += 1;
        }
        out
    }
}

} // verus!
