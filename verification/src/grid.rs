use crate::universe::Cell;
use vstd::prelude::*;

verus! {

/// The mathematical model of a universe: a torus of `height` rows and
/// `width` columns, its cells listed row by row.
pub struct Grid {
    pub width: nat,
    pub height: nat,
    pub cells: Seq<Cell>,
}

impl Grid {
    /// Both dimensions are positive and there is one cell per position.
    pub open spec fn wf(self) -> bool {
        &&& self.width > 0
        &&& self.height > 0
        &&& self.cells.len() == self.width * self.height
    }

    /// Whether `(row, col)` names a position of the grid.
    pub open spec fn in_range(self, row: int, col: int) -> bool {
        0 <= row < self.height && 0 <= col < self.width
    }

    /// Where the cell at `(row, col)` stands in `cells`.
    pub open spec fn index(self, row: int, col: int) -> int {
        row * self.width + col
    }

    /// The cell at `(row, col)`, both taken around the torus: row `-1` is the
    /// last row, row `height` is the first.
    pub open spec fn cell(self, row: int, col: int) -> Cell {
        self.cells[self.index(row % (self.height as int), col % (self.width as int))]
    }

    /// The three steps taken along an axis of length `size`, in the order in
    /// which neighbours are visited: one back (as `size - 1` forward), none,
    /// one forward.
    pub open spec fn step(k: int, size: nat) -> int {
        if k == 0 {
            size - 1
        } else if k == 1 {
            0
        } else {
            1
        }
    }

    /// What the `k`-th of the nine pairs of steps adds to the neighbour count
    /// of `(row, col)`. A pair of two zero steps is the cell itself and adds
    /// nothing; on an axis of length 1 the step back is such a zero step.
    pub open spec fn neighbour_term(self, row: int, col: int, k: int) -> nat {
        let dr = Self::step(k / 3, self.height);
        let dc = Self::step(k % 3, self.width);
        if dr == 0 && dc == 0 {
            0
        } else {
            self.cell(row + dr, col + dc).value()
        }
    }

    /// The sum of the first `k` terms of the neighbour count of `(row, col)`.
    pub open spec fn neighbour_sum(self, row: int, col: int, k: nat) -> nat
        decreases k,
    {
        if k == 0 {
            0
        } else {
            self.neighbour_sum(row, col, (k - 1) as nat) + self.neighbour_term(row, col, k - 1)
        }
    }

    /// The number of live neighbours of `(row, col)`: the sum of all nine
    /// terms. With at least two rows and two columns these are the eight
    /// positions around `(row, col)` on the torus.
    pub open spec fn live_neighbours(self, row: int, col: int) -> nat {
        self.neighbour_sum(row, col, 9)
    }

    /// The next generation: every cell follows the rule, with its neighbours
    /// counted in this generation.
    pub open spec fn tick(self) -> Grid {
        Grid {
            width: self.width,
            height: self.height,
            cells: Seq::new(
                self.cells.len(),
                |i: int|
                    self.cells[i].next(
                        self.live_neighbours(i / (self.width as int), i % (self.width as int)),
                    ),
            ),
        }
    }

    /// A grid of the given dimensions with no live cell.
    pub open spec fn dead(width: nat, height: nat) -> Grid {
        Grid { width, height, cells: Seq::new(width * height, |i: int| Cell::Dead) }
    }

    /// A grid of the given dimensions in which cell `i` lives where `draws[i]`
    /// is true.
    pub open spec fn from_draws(width: nat, height: nat, draws: Seq<bool>) -> Grid {
        Grid {
            width,
            height,
            cells: Seq::new(
                width * height,
                |i: int|
                    if draws[i] {
                        Cell::Alive
                    } else {
                        Cell::Dead
                    },
            ),
        }
    }

    /// Whether one of `coords` is the position that stands at `i` in `cells`.
    pub open spec fn named(self, coords: Seq<(u32, u32)>, i: int) -> bool {
        exists|k: int|
            0 <= k < coords.len() && #[trigger] self.index(coords[k].0 as int, coords[k].1 as int)
                == i
    }

    /// The grid with every position in `coords` alive and every other cell as
    /// it was.
    pub open spec fn with_alive(self, coords: Seq<(u32, u32)>) -> Grid {
        Grid {
            width: self.width,
            height: self.height,
            cells: Seq::new(
                self.cells.len(),
                |i: int|
                    if self.named(coords, i) {
                        Cell::Alive
                    } else {
                        self.cells[i]
                    },
            ),
        }
    }

    /// The character that shows a cell.
    pub open spec fn glyph(cell: Cell) -> char {
        match cell {
            Cell::Dead => '\u{25FB}',
            Cell::Alive => '\u{25FC}',
        }
    }

    /// The grid as text: one line per row, one glyph per cell, and a line
    /// break after every row.
    pub open spec fn render(self) -> Seq<char> {
        Seq::new(
            self.height * (self.width + 1),
            |i: int|
                {
                    let row = i / (self.width + 1) as int;
                    let col = i % (self.width + 1) as int;
                    if col == self.width {
                        '\n'
                    } else {
                        Self::glyph(self.cells[self.index(row, col)])
                    }
                },
        )
    }

    /// Whether `(row, col)` lies in the square of two by two positions whose
    /// upper left corner is `(top, left)`, on the torus.
    pub open spec fn in_block(self, top: int, left: int, row: int, col: int) -> bool {
        (row - top) % (self.height as int) < 2 && (col - left) % (self.width as int) < 2
    }

    /// Whether the live cells are exactly those of the block at `(top, left)`.
    pub open spec fn is_block(self, top: int, left: int) -> bool {
        forall|row: int, col: int|
            self.in_range(row, col) ==> (#[trigger] self.cell(row, col) == Cell::Alive
                <==> self.in_block(top, left, row, col))
    }
}

} // verus!
