use crate::grid::Grid;
use crate::product::{cartesian_product, pairs};
use vstd::prelude::*;

verus! {

/// The state of one position of the universe.
#[derive(Debug, Clone, Copy, PartialEq, Eq, Structural)]
pub enum Cell {
    Dead,
    Alive,
}

impl Cell {
    /// What a cell adds to a count of live cells: 0 when dead, 1 when alive.
    pub open spec fn value(self) -> nat {
        match self {
            Cell::Dead => 0,
            Cell::Alive => 1,
        }
    }

    /// The state of a cell in the next generation, given how many of its
    /// neighbours live now: a cell lives on with two or three live neighbours,
    /// and a dead cell is born with exactly three.
    pub open spec fn next(self, live_neighbours: nat) -> Cell {
        if live_neighbours == 3 || (self == Cell::Alive && live_neighbours == 2) {
            Cell::Alive
        } else {
            Cell::Dead
        }
    }

    /// The cell as a number that can be summed.
    pub fn to_count(self) -> (n: usize)
        ensures
            n == self.value(),
    {
        match self {
            Cell::Dead => 0,
            Cell::Alive => 1,
        }
    }

    /// Applies the transition rule to one cell.
    pub fn next_state(self, live_neighbours: usize) -> (next: Cell)
        ensures
            next == self.next(live_neighbours as nat),
    {
        match self {
            Cell::Alive => {
                if live_neighbours < 2 {
                    Cell::Dead
                } else if live_neighbours <= 3 {
                    Cell::Alive
                } else {
                    Cell::Dead
                }
            },
            Cell::Dead => {
                if live_neighbours == 3 {
                    Cell::Alive
                } else {
                    Cell::Dead
                }
            },
        }
    }
}

/// A universe of cells on a torus, stored row by row.
pub struct Universe {
    width: u32,
    height: u32,
    cells: Vec<Cell>,
}

impl View for Universe {
    type V = Grid;

    closed spec fn view(&self) -> Grid {
        Grid { width: self.width as nat, height: self.height as nat, cells: self.cells@ }
    }
}

/// The numbers `0, 1, .., n - 1` in order.
fn range(n: u32) -> (numbers: Vec<u32>)
    ensures
        numbers@.len() == n,
        forall|i: int| 0 <= i < n ==> numbers@[i] == i,
{
    let mut numbers: Vec<u32> = Vec::new();
    let mut i: u32 = 0;
    while i < n
        invariant
            i <= n,
            numbers@.len() == i,
            forall|j: int| 0 <= j < i ==> numbers@[j] == j,
        decreases n - i,
    {
        numbers.push(i);
        i = i + 1;
    }
    numbers
}

/// The place reached from `at` by `step` forward on a ring of `size` places.
fn wrap(step: u32, at: u32, size: u32) -> (place: u32)
    requires
        size > 0,
    ensures
        place == (step + at) % (size as int),
        place < size,
{
    ((step as u64 + at as u64) % (size as u64)) as u32
}

/// `n` dead cells.
fn dead_cells(n: u32) -> (cells: Vec<Cell>)
    ensures
        cells@ == Seq::new(n as nat, |i: int| Cell::Dead),
{
    let mut cells: Vec<Cell> = Vec::new();
    let mut i: u32 = 0;
    while i < n
        invariant
            i <= n,
            cells@.len() == i,
            forall|j: int| 0 <= j < i ==> cells@[j] == Cell::Dead,
        decreases n - i,
    {
        cells.push(Cell::Dead);
        i = i + 1;
    }
    assert(cells@ =~= Seq::new(n as nat, |i: int| Cell::Dead));
    cells
}

impl Universe {
    /// The model is a well-formed grid whose cells can be counted in a `u32`.
    pub open spec fn wf(&self) -> bool {
        &&& self@.wf()
        &&& self@.width * self@.height <= u32::MAX
    }

    /// Where the cell at `(row, column)` stands in the cell buffer.
    pub fn get_index(&self, row: u32, column: u32) -> (index: usize)
        requires
            self.wf(),
            self@.in_range(row as int, column as int),
        ensures
            index == row * self@.width + column,
            index == self@.index(row as int, column as int),
            index < self@.cells.len(),
    {
        proof {
            self@.lemma_index_in_bounds(row as int, column as int);
        }
        (row * self.width + column) as usize
    }

    /// The number of live cells among the neighbours of `(row, column)` on
    /// the torus.
    pub fn live_neighbour_count(&self, row: u32, column: u32) -> (count: usize)
        requires
            self.wf(),
        ensures
            count == self@.live_neighbours(row as int, column as int),
            count <= 8,
    {
        let row_steps: Vec<u32> = vec![self.height - 1, 0, 1];
        let col_steps: Vec<u32> = vec![self.width - 1, 0, 1];
        let steps = cartesian_product(row_steps.as_slice(), col_steps.as_slice());
        let mut count: usize = 0;
        let mut k: usize = 0;
        while k < steps.len()
            invariant
                self.wf(),
                steps@ == pairs(row_steps@, col_steps@),
                row_steps@.len() == 3,
                col_steps@.len() == 3,
                forall|i: int| 0 <= i < 3 ==> row_steps@[i] == Grid::step(i, self@.height),
                forall|i: int| 0 <= i < 3 ==> col_steps@[i] == Grid::step(i, self@.width),
                k <= 9,
                count == self@.neighbour_sum(row as int, column as int, k as nat),
                count <= k,
                k > 4 ==> count < k,
            decreases 9 - k,
        {
            let (dr, dc) = steps[k];
            if dr != 0 || dc != 0 {
                let r = wrap(dr, row, self.height);
                let c = wrap(dc, column, self.width);
                let index = self.get_index(r, c);
                count = count + self.cells[index].to_count();
            }
            k = k + 1;
        }
        count
    }

    /// Advances the universe by one generation. Every cell's neighbours are
    /// counted in the generation before the call.
    pub fn tick(&mut self)
        requires
            old(self).wf(),
        ensures
            final(self).wf(),
            final(self)@ == old(self)@.tick(),
            final(self)@.width == old(self)@.width,
            final(self)@.height == old(self)@.height,
            final(self)@.cells.len() == old(self)@.cells.len(),
    {
        let rows = range(self.height);
        let columns = range(self.width);
        assert(rows@.len() * columns@.len() == self@.cells.len()) by (nonlinear_arith)
            requires
                rows@.len() == self@.height,
                columns@.len() == self@.width,
                self@.cells.len() == self@.width * self@.height,
        ;
        let positions = cartesian_product(rows.as_slice(), columns.as_slice());
        let mut next: Vec<Cell> = Vec::new();
        let mut k: usize = 0;
        while k < positions.len()
            invariant
                self.wf(),
                *self == *old(self),
                positions@ == pairs(rows@, columns@),
                positions@.len() == self@.cells.len(),
                rows@.len() == self@.height,
                columns@.len() == self@.width,
                forall|i: int| 0 <= i < rows@.len() ==> rows@[i] == i,
                forall|i: int| 0 <= i < columns@.len() ==> columns@[i] == i,
                k <= positions@.len(),
                next@.len() == k,
                forall|i: int| 0 <= i < k ==> next@[i] == self@.tick().cells[i],
            decreases positions@.len() - k,
        {
            let (row, column) = positions[k];
            proof {
                self@.lemma_position_of_index(k as int);
            }
            let index = self.get_index(row, column);
            let cell = self.cells[index];
            let live_neighbours = self.live_neighbour_count(row, column);
            next.push(cell.next_state(live_neighbours));
            k = k + 1;
        }
        self.cells = next;
        assert(self@.cells =~= old(self)@.tick().cells);
    }

    /// A universe of the given dimensions, seeded from one draw per cell:
    /// the cell at index `i` lives where `draws[i]` is true.
    pub fn new(width: u32, height: u32, draws: &[bool]) -> (universe: Universe)
        requires
            width > 0,
            height > 0,
            width * height <= u32::MAX,
            draws@.len() == width * height,
        ensures
            universe.wf(),
            universe@ == Grid::from_draws(width as nat, height as nat, draws@),
    {
        let size: u32 = width * height;
        let mut cells: Vec<Cell> = Vec::new();
        let mut i: u32 = 0;
        while i < size
            invariant
                i <= size,
                size == draws@.len(),
                cells@.len() == i,
                forall|j: int|
                    0 <= j < i ==> cells@[j] == if draws@[j] {
                        Cell::Alive
                    } else {
                        Cell::Dead
                    },
            decreases size - i,
        {
            let cell = if draws[i as usize] {
                Cell::Alive
            } else {
                Cell::Dead
            };
            cells.push(cell);
            i = i + 1;
        }
        let universe = Universe { width, height, cells };
        assert(universe@.cells =~= Grid::from_draws(width as nat, height as nat, draws@).cells);
        universe
    }

    /// The text that shows the universe: one line per row, a hollow square
    /// for a dead cell and a filled one for a live cell.
    pub fn render(&self) -> (text: String)
        requires
            self.wf(),
        ensures
            text@ == self@.render(),
    {
        let mut text = String::new();
        let mut row: u32 = 0;
        while row < self.height
            invariant
                self.wf(),
                row <= self.height,
                text@ == self@.render().take(row * (self@.width + 1)),
            decreases self.height - row,
        {
            let mut column: u32 = 0;
            while column < self.width
                invariant
                    self.wf(),
                    row < self.height,
                    column <= self.width,
                    text@ == self@.render().take(row * (self@.width + 1) + column),
                decreases self.width - column,
            {
                let index = self.get_index(row, column);
                proof {
                    reveal_strlit("\u{25FB}");
                    reveal_strlit("\u{25FC}");
                    self@.lemma_render_at(row as int, column as int);
                }
                if self.cells[index] == Cell::Dead {
                    text.append("\u{25FB}");
                } else {
                    text.append("\u{25FC}");
                }
                assert(text@ =~= self@.render().take(row * (self@.width + 1) + column + 1));
                column = column + 1;
            }
            proof {
                reveal_strlit("\n");
                self@.lemma_render_at(row as int, self.width as int);
            }
            text.append("\n");
            assert(text@ =~= self@.render().take((row + 1) * (self@.width + 1))) by {
                assert((row + 1) * (self@.width + 1) == row * (self@.width + 1) + self@.width + 1)
                    by (nonlinear_arith);
            }
            row = row + 1;
        }
        assert(text@ =~= self@.render());
        text
    }

    /// The number of columns.
    pub fn width(&self) -> (width: u32)
        ensures
            width == self@.width,
    {
        self.width
    }

    /// The number of rows.
    pub fn height(&self) -> (height: u32)
        ensures
            height == self@.height,
    {
        self.height
    }

    /// The cell buffer, row by row, for a host that draws it.
    pub fn cells(&self) -> (cells: &[Cell])
        ensures
            cells@ == self@.cells,
    {
        self.cells.as_slice()
    }

    /// Sets the number of columns and leaves every cell dead.
    pub fn set_width(&mut self, width: u32)
        requires
            old(self).wf(),
            width > 0,
            width * old(self)@.height <= u32::MAX,
        ensures
            final(self).wf(),
            final(self)@ == Grid::dead(width as nat, old(self)@.height),
            final(self)@.width == width,
            final(self)@.height == old(self)@.height,
            final(self)@.cells.len() == width * old(self)@.height,
            forall|i: int| 0 <= i < final(self)@.cells.len() ==> final(self)@.cells[i] == Cell::Dead,
    {
        self.width = width;
        self.cells = dead_cells(width * self.height);
    }

    /// Sets the number of rows and leaves every cell dead.
    pub fn set_height(&mut self, height: u32)
        requires
            old(self).wf(),
            height > 0,
            old(self)@.width * height <= u32::MAX,
        ensures
            final(self).wf(),
            final(self)@ == Grid::dead(old(self)@.width, height as nat),
            final(self)@.width == old(self)@.width,
            final(self)@.height == height,
            final(self)@.cells.len() == old(self)@.width * height,
            forall|i: int| 0 <= i < final(self)@.cells.len() ==> final(self)@.cells[i] == Cell::Dead,
    {
        self.height = height;
        self.cells = dead_cells(self.width * height);
    }

    /// The cells, row by row.
    pub fn get_cells(&self) -> (cells: &[Cell])
        ensures
            cells@ == self@.cells,
    {
        self.cells.as_slice()
    }

    /// Brings every position in `cells` to life and leaves the others as
    /// they are.
    pub fn set_cells(&mut self, cells: &[(u32, u32)])
        requires
            old(self).wf(),
            forall|k: int|
                0 <= k < cells@.len() ==> old(self)@.in_range(
                    (#[trigger] cells@[k]).0 as int,
                    cells@[k].1 as int,
                ),
        ensures
            final(self).wf(),
            final(self)@ == old(self)@.with_alive(cells@),
            final(self)@.width == old(self)@.width,
            final(self)@.height == old(self)@.height,
            forall|row: u32, column: u32|
                old(self)@.in_range(row as int, column as int) ==> (#[trigger] final(self)@.cell(
                    row as int,
                    column as int,
                ) == Cell::Alive <==> old(self)@.cell(row as int, column as int) == Cell::Alive
                    || cells@.contains((row, column))),
    {
        let mut k: usize = 0;
        assert(self@.cells =~= self@.with_alive(cells@.take(0)).cells);
        while k < cells.len()
            invariant
                self.wf(),
                k <= cells@.len(),
                self@.width == old(self)@.width,
                self@.height == old(self)@.height,
                forall|j: int|
                    0 <= j < cells@.len() ==> self@.in_range(
                        (#[trigger] cells@[j]).0 as int,
                        cells@[j].1 as int,
                    ),
                self@ == old(self)@.with_alive(cells@.take(k as int)),
            decreases cells@.len() - k,
        {
            let (row, column) = cells[k];
            let index = self.get_index(row, column);
            let ghost before = self@;
            self.cells.set(index, Cell::Alive);
            proof {
                old(self)@.lemma_with_alive_push(cells@.take(k as int), (row, column));
                assert(cells@.take(k as int).push((row, column)) =~= cells@.take(k + 1));
                assert forall|i: int| 0 <= i < before.cells.len() implies before.named(
                    seq![(row, column)],
                    i,
                ) == (i == index) by {
                    before.lemma_named_one((row, column), i);
                }
                assert(self@.cells =~= before.with_alive(seq![(row, column)]).cells);
                assert(self@.cells =~= old(self)@.with_alive(cells@.take(k + 1)).cells);
            }
            k = k + 1;
        }
        assert(cells@.take(cells@.len() as int) =~= cells@);
        assert forall|row: u32, column: u32|
            old(self)@.in_range(row as int, column as int) implies (#[trigger] self@.cell(
            row as int,
            column as int,
        ) == Cell::Alive <==> old(self)@.cell(row as int, column as int) == Cell::Alive
            || cells@.contains((row, column))) by {
            old(self)@.lemma_with_alive_cell(cells@, (row, column));
        }
    }
}

} // verus!
