use crate::grid::Grid;
use crate::universe::Cell;
use vstd::arithmetic::div_mod::{
    lemma_fundamental_div_mod, lemma_fundamental_div_mod_converse,
    lemma_fundamental_div_mod_converse_mod, lemma_mod_multiples_vanish, lemma_small_mod,
};
use vstd::prelude::*;

verus! {

/// Moving `d` places from `x` on a ring of `m` places, for a move of at most
/// one turn: the place is that of `x` plus `d`, brought back into the ring.
pub proof fn lemma_mod_step(x: int, d: int, m: int)
    requires
        m > 0,
        -m <= d <= m,
    ensures
        (x + d) % m == if x % m + d < 0 {
            x % m + d + m
        } else if x % m + d >= m {
            x % m + d - m
        } else {
            x % m + d
        },
{
    let q = x / m;
    let r = x % m;
    lemma_fundamental_div_mod(x, m);
    let s = r + d;
    if s < 0 {
        assert(x + d == (q - 1) * m + (s + m)) by (nonlinear_arith)
            requires
                x == m * q + r,
                s == r + d,
        ;
        lemma_fundamental_div_mod_converse_mod(x + d, m, q - 1, s + m);
    } else if s >= m {
        assert(x + d == (q + 1) * m + (s - m)) by (nonlinear_arith)
            requires
                x == m * q + r,
                s == r + d,
        ;
        lemma_fundamental_div_mod_converse_mod(x + d, m, q + 1, s - m);
    } else {
        assert(x + d == q * m + s) by (nonlinear_arith)
            requires
                x == m * q + r,
                s == r + d,
        ;
        lemma_fundamental_div_mod_converse_mod(x + d, m, q, s);
    }
}

impl Grid {
    /// A position of the grid has its index among the cells.
    pub proof fn lemma_index_in_bounds(self, row: int, col: int)
        requires
            self.wf(),
            self.in_range(row, col),
        ensures
            0 <= self.index(row, col) < self.cells.len(),
    {
        assert(0 <= row * self.width + col < self.width * self.height) by (nonlinear_arith)
            requires
                0 <= row < self.height,
                0 <= col < self.width,
        ;
    }

    /// Every index of a cell is the index of exactly the position found by
    /// dividing it by the width.
    pub proof fn lemma_position_of_index(self, i: int)
        requires
            self.wf(),
            0 <= i < self.cells.len(),
        ensures
            self.in_range(i / (self.width as int), i % (self.width as int)),
            self.index(i / (self.width as int), i % (self.width as int)) == i,
    {
        let w = self.width as int;
        lemma_fundamental_div_mod(i, w);
        assert(i / w < self.height) by (nonlinear_arith)
            requires
                0 <= i < w * self.height,
                w > 0,
        ;
        assert(0 <= i / w) by (nonlinear_arith)
            requires
                0 <= i,
                w > 0,
        ;
        assert(w * (i / w) == (i / w) * w) by (nonlinear_arith);
    }

    /// The character at the place of `(row, col)` in the text, where column
    /// `width` is the line break that ends a row.
    pub proof fn lemma_render_at(self, row: int, col: int)
        requires
            self.wf(),
            0 <= row < self.height,
            0 <= col <= self.width,
        ensures
            0 <= row * (self.width + 1) + col < self.render().len(),
            self.render()[row * (self.width + 1) + col] == if col == self.width {
                '\n'
            } else {
                Self::glyph(self.cells[self.index(row, col)])
            },
    {
        let line = (self.width + 1) as int;
        let i = row * line + col;
        assert(0 <= i < self.height * line) by (nonlinear_arith)
            requires
                0 <= row < self.height,
                0 <= col < line,
                i == row * line + col,
        ;
        lemma_fundamental_div_mod_converse(i, line, row, col);
    }

    /// A single position names its own index and no other.
    pub proof fn lemma_named_one(self, position: (u32, u32), i: int)
        ensures
            self.named(seq![position], i) == (self.index(position.0 as int, position.1 as int)
                == i),
    {
        let one = seq![position];
        if self.index(position.0 as int, position.1 as int) == i {
            assert(self.index(one[0].0 as int, one[0].1 as int) == i);
        }
    }

    /// Naming one more position brings that position to life and changes
    /// nothing else.
    pub proof fn lemma_with_alive_push(self, coords: Seq<(u32, u32)>, last: (u32, u32))
        ensures
            self.with_alive(coords.push(last)) == self.with_alive(coords).with_alive(seq![last]),
    {
        let more = coords.push(last);
        let one = seq![last];
        let step = self.with_alive(coords);
        assert forall|i: int| 0 <= i < self.cells.len() implies self.named(more, i) == (self.named(
            coords,
            i,
        ) || step.named(one, i)) by {
            if self.named(coords, i) {
                let k = choose|k: int|
                    0 <= k < coords.len() && #[trigger] self.index(
                        coords[k].0 as int,
                        coords[k].1 as int,
                    ) == i;
                assert(self.index(more[k].0 as int, more[k].1 as int) == i);
            }
            if step.named(one, i) {
                let k = coords.len() as int;
                assert(self.index(more[k].0 as int, more[k].1 as int) == i);
            }
            if self.named(more, i) {
                let k = choose|k: int|
                    0 <= k < more.len() && #[trigger] self.index(
                        more[k].0 as int,
                        more[k].1 as int,
                    ) == i;
                if k < coords.len() {
                    assert(self.index(coords[k].0 as int, coords[k].1 as int) == i);
                } else {
                    assert(step.index(one[0].0 as int, one[0].1 as int) == i);
                }
            }
        }
        assert(self.with_alive(more).cells =~= step.with_alive(one).cells);
    }

    /// The index of a position of the grid belongs to no other position.
    pub proof fn lemma_index_injective(self, row: int, col: int, other_row: int, other_col: int)
        requires
            self.wf(),
            self.in_range(row, col),
            self.in_range(other_row, other_col),
            self.index(row, col) == self.index(other_row, other_col),
        ensures
            row == other_row,
            col == other_col,
    {
        let w = self.width as int;
        lemma_fundamental_div_mod_converse(self.index(row, col), w, row, col);
        lemma_fundamental_div_mod_converse(self.index(row, col), w, other_row, other_col);
    }

    /// Inside the grid, `cell` reads the cell at the position's index.
    pub proof fn lemma_cell_in_range(self, row: int, col: int)
        requires
            self.wf(),
            self.in_range(row, col),
        ensures
            self.cell(row, col) == self.cells[self.index(row, col)],
    {
        lemma_small_mod(row as nat, self.height);
        lemma_small_mod(col as nat, self.width);
    }

    /// Positions that differ by whole turns round the torus hold the same
    /// cell.
    pub proof fn lemma_cell_wraps(self, row: int, col: int)
        requires
            self.wf(),
        ensures
            self.in_range(row % (self.height as int), col % (self.width as int)),
            self.cell(row, col) == self.cell(row % (self.height as int), col % (self.width as int)),
            self.cell(row + self.height, col) == self.cell(row, col),
            self.cell(row, col + self.width) == self.cell(row, col),
    {
        let h = self.height as int;
        let w = self.width as int;
        lemma_mod_step(row, 0, h);
        lemma_mod_step(col, 0, w);
        lemma_mod_step(row % h, 0, h);
        lemma_mod_step(col % w, 0, w);
        lemma_mod_step(row, h, h);
        lemma_mod_step(col, w, w);
        lemma_small_mod((row % h) as nat, self.height);
        lemma_small_mod((col % w) as nat, self.width);
    }

    /// On a grid with at least two rows and two columns, the neighbour count
    /// of a position is the number of live cells among the eight positions
    /// around it, where the positions beyond an edge are those at the
    /// opposite edge.
    pub proof fn lemma_live_neighbours_moore(self, row: int, col: int)
        requires
            self.wf(),
            self.width >= 2,
            self.height >= 2,
        ensures
            self.live_neighbours(row, col) == self.cell(row - 1, col - 1).value() + self.cell(
                row - 1,
                col,
            ).value() + self.cell(row - 1, col + 1).value() + self.cell(row, col - 1).value()
                + self.cell(row, col + 1).value() + self.cell(row + 1, col - 1).value()
                + self.cell(row + 1, col).value() + self.cell(row + 1, col + 1).value(),
    {
        let h = self.height as int;
        let w = self.width as int;
        reveal_with_fuel(Grid::neighbour_sum, 10);
        self.lemma_cell_wraps(row - 1, col - 1);
        self.lemma_cell_wraps(row - 1, col);
        self.lemma_cell_wraps(row - 1, col + 1);
        self.lemma_cell_wraps(row, col - 1);
        self.lemma_cell_wraps(row + 1, col - 1);
        assert(self.neighbour_term(row, col, 0) == self.cell(row - 1, col - 1).value()) by {
            self.lemma_cell_wraps(row - 1 + h, col - 1);
        }
        assert(self.neighbour_term(row, col, 1) == self.cell(row - 1, col).value());
        assert(self.neighbour_term(row, col, 2) == self.cell(row - 1, col + 1).value());
        assert(self.neighbour_term(row, col, 3) == self.cell(row, col - 1).value());
        assert(self.neighbour_term(row, col, 4) == 0);
        assert(self.neighbour_term(row, col, 5) == self.cell(row, col + 1).value());
        assert(self.neighbour_term(row, col, 6) == self.cell(row + 1, col - 1).value());
        assert(self.neighbour_term(row, col, 7) == self.cell(row + 1, col).value());
        assert(self.neighbour_term(row, col, 8) == self.cell(row + 1, col + 1).value());
    }

    /// The neighbours of the upper left corner: three cells of the last row,
    /// the lower right corner among them, two more of the last column, and
    /// the three cells next to the corner.
    pub proof fn lemma_corner_neighbours(self)
        requires
            self.wf(),
            self.width >= 2,
            self.height >= 2,
        ensures
            self.in_range(self.height - 1, self.width - 1),
            self.in_range(1, 1),
            self.live_neighbours(0, 0) == self.cell(self.height - 1, self.width - 1).value()
                + self.cell(self.height - 1, 0).value() + self.cell(self.height - 1, 1).value()
                + self.cell(0, self.width - 1).value() + self.cell(0, 1).value() + self.cell(
                1,
                self.width - 1,
            ).value() + self.cell(1, 0).value() + self.cell(1, 1).value(),
    {
        let h = self.height as int;
        self.lemma_live_neighbours_moore(0, 0);
        self.lemma_cell_wraps(-1, -1);
        self.lemma_cell_wraps(h - 1, -1);
        self.lemma_cell_wraps(-1, 0);
        self.lemma_cell_wraps(-1, 1);
        self.lemma_cell_wraps(0, -1);
        self.lemma_cell_wraps(1, -1);
    }

    /// After positions of the grid are named, a position holds a live cell
    /// exactly if it did before or is one of those named.
    pub proof fn lemma_with_alive_cell(self, coords: Seq<(u32, u32)>, position: (u32, u32))
        requires
            self.wf(),
            self.in_range(position.0 as int, position.1 as int),
            forall|k: int|
                0 <= k < coords.len() ==> self.in_range(
                    (#[trigger] coords[k]).0 as int,
                    coords[k].1 as int,
                ),
        ensures
            self.with_alive(coords).cell(position.0 as int, position.1 as int) == Cell::Alive
                <==> self.cell(position.0 as int, position.1 as int) == Cell::Alive
                || coords.contains(position),
    {
        let row = position.0 as int;
        let col = position.1 as int;
        let after = self.with_alive(coords);
        let i = self.index(row, col);
        self.lemma_index_in_bounds(row, col);
        self.lemma_cell_in_range(row, col);
        after.lemma_cell_in_range(row, col);
        if self.named(coords, i) {
            let k = choose|k: int|
                0 <= k < coords.len() && #[trigger] self.index(
                    coords[k].0 as int,
                    coords[k].1 as int,
                ) == i;
            assert(self.in_range(coords[k].0 as int, coords[k].1 as int));
            self.lemma_index_injective(row, col, coords[k].0 as int, coords[k].1 as int);
            assert(coords[k] == position);
        }
        if coords.contains(position) {
            let k = choose|k: int| 0 <= k < coords.len() && coords[k] == position;
            assert(self.index(coords[k].0 as int, coords[k].1 as int) == i);
        }
    }

    /// On a grid whose live cells are a block, any position of the torus
    /// holds a live cell exactly if it lies in the block.
    pub proof fn lemma_block_cell(self, top: int, left: int, row: int, col: int)
        requires
            self.wf(),
            self.is_block(top, left),
        ensures
            self.cell(row, col) == Cell::Alive <==> self.in_block(top, left, row, col),
    {
        let h = self.height as int;
        let w = self.width as int;
        self.lemma_cell_wraps(row, col);
        assert(self.cell(row % h, col % w) == Cell::Alive <==> self.in_block(
            top,
            left,
            row % h,
            col % w,
        ));
        lemma_fundamental_div_mod(row, h);
        lemma_fundamental_div_mod(col, w);
        lemma_mod_multiples_vanish(row / h, row % h - top, h);
        lemma_mod_multiples_vanish(col / w, col % w - left, w);
    }

    /// A block of two by two live cells on an otherwise dead grid of at least
    /// three rows and three columns is a still life: the next generation is the
    /// same grid.
    pub proof fn lemma_block_is_still_life(self, top: int, left: int)
        requires
            self.wf(),
            self.width >= 3,
            self.height >= 3,
            self.is_block(top, left),
        ensures
            self.tick() == self,
    {
        let h = self.height as int;
        let w = self.width as int;
        assert forall|i: int| 0 <= i < self.cells.len() implies self.tick().cells[i]
            == self.cells[i] by {
            let row = i / w;
            let col = i % w;
            self.lemma_position_of_index(i);
            self.lemma_cell_in_range(row, col);
            self.lemma_live_neighbours_moore(row, col);
            self.lemma_block_cell(top, left, row - 1, col - 1);
            self.lemma_block_cell(top, left, row - 1, col);
            self.lemma_block_cell(top, left, row - 1, col + 1);
            self.lemma_block_cell(top, left, row, col - 1);
            self.lemma_block_cell(top, left, row, col);
            self.lemma_block_cell(top, left, row, col + 1);
            self.lemma_block_cell(top, left, row + 1, col - 1);
            self.lemma_block_cell(top, left, row + 1, col);
            self.lemma_block_cell(top, left, row + 1, col + 1);
            lemma_mod_step(row - top, -1, h);
            lemma_mod_step(row - top, 1, h);
            lemma_mod_step(col - left, -1, w);
            lemma_mod_step(col - left, 1, w);
            lemma_mod_step(row - top, 0, h);
            lemma_mod_step(col - left, 0, w);
        }
        assert(self.tick().cells =~= self.cells);
    }
}

} // verus!
