use vstd::arithmetic::div_mod::{lemma_fundamental_div_mod, lemma_fundamental_div_mod_converse};
use vstd::prelude::*;

verus! {

/// Number of columns of the playing board.
pub const COLS: usize = 17;

/// Number of rows of the playing board.
pub const ROWS: usize = 10;

/// Largest board this library builds; keeps every sum of cell values far from overflow.
pub const MAX_CELLS: usize = 1000000;

/// Smallest value a cell can carry.
pub const MIN_VALUE: usize = 1;

/// Largest value a cell can carry.
pub const MAX_VALUE: usize = 9;

#[derive(Clone, Copy, Debug, PartialEq, Eq, Structural)]
pub enum Status {
    Default,
    Selected,
    Scored,
}

#[derive(Clone, Copy, Debug, PartialEq, Eq, Structural)]
pub struct Position {
    pub col: usize,
    pub row: usize,
}

#[derive(Clone, Copy, Debug, PartialEq, Eq, Structural)]
pub struct Cell {
    pub col: usize,
    pub row: usize,
    pub value: usize,
    pub status: Status,
}

impl Cell {
    /// The same cell with another status.
    pub open spec fn with_status(self, status: Status) -> Cell {
        Cell { col: self.col, row: self.row, value: self.value, status }
    }

    /// The cell stored at index `i` of a board with `rows` rows, laid out column by column.
    pub open spec fn placed_at(self, i: int, rows: int) -> bool {
        &&& self.col == i / rows
        &&& self.row == i % rows
        &&& valid_value(self.value as int)
    }
}

pub open spec fn valid_value(v: int) -> bool {
    MIN_VALUE <= v <= MAX_VALUE
}

/// Sum of the values of the `Selected` cells.
pub open spec fn selected_sum(cells: Seq<Cell>) -> int
    decreases cells.len(),
{
    if cells.len() == 0 {
        0
    } else {
        selected_sum(cells.drop_last()) + if cells.last().status == Status::Selected {
            cells.last().value as int
        } else {
            0
        }
    }
}

/// Number of `Scored` cells.
pub open spec fn scored_count(cells: Seq<Cell>) -> int
    decreases cells.len(),
{
    if cells.len() == 0 {
        0
    } else {
        scored_count(cells.drop_last()) + if cells.last().status == Status::Scored {
            1int
        } else {
            0
        }
    }
}

/// A `cols` x `rows` board. The cell at (`col`, `row`) is stored at index `col * rows + row`.
pub struct Grid {
    pub cols: usize,
    pub rows: usize,
    pub cells: Vec<Cell>,
}

impl Grid {
    pub open spec fn wf(&self) -> bool {
        &&& self.cells@.len() == self.cols * self.rows
        &&& self.cells@.len() <= MAX_CELLS
        &&& forall|i: int|
            0 <= i < self.cells@.len() ==> #[trigger] self.cells@[i].placed_at(i, self.rows as int)
    }

    /// Builds a board from its values, given column by column. Fails when the number of values
    /// is not `cols * rows`, when the board would exceed `MAX_CELLS`, or when a value lies outside
    /// `MIN_VALUE..=MAX_VALUE`. Every cell of a new board is `Default`.
    pub fn from_values(cols: usize, rows: usize, values: &Vec<usize>) -> (r: Option<Grid>)
        ensures
            r is Some <==> (values@.len() == cols * rows && values@.len() <= MAX_CELLS
                && forall|i: int| 0 <= i < values@.len() ==> valid_value(#[trigger] values@[i] as int)),
            r matches Some(g) ==> {
                &&& g.wf()
                &&& g.cols == cols
                &&& g.rows == rows
                &&& forall|i: int|
                    0 <= i < values@.len() ==> #[trigger] g.cells@[i] == (Cell {
                        col: (i / rows as int) as usize,
                        row: (i % rows as int) as usize,
                        value: values@[i],
                        status: Status::Default,
                    })
            },
    {
        let n = match cols.checked_mul(rows) {
            Some(n) => n,
            None => {
                return None;
            },
        };
        if values.len() != n || n > MAX_CELLS {
            return None;
        }
        let mut cells: Vec<Cell> = Vec::new();
        let mut i: usize = 0;
        while i < n
            invariant
                n == cols * rows,
                values@.len() == n,
                n <= MAX_CELLS,
                i <= n,
                cells@.len() == i,
                forall|j: int| 0 <= j < i ==> valid_value(#[trigger] values@[j] as int),
                forall|j: int|
                    0 <= j < i ==> #[trigger] cells@[j] == (Cell {
                        col: (j / rows as int) as usize,
                        row: (j % rows as int) as usize,
                        value: values@[j],
                        status: Status::Default,
                    }),
            decreases n - i,
        {
            let v = values[i];
            if v < MIN_VALUE || v > MAX_VALUE {
                return None;
            }
            assert(rows > 0) by (nonlinear_arith)
                requires
                    i < n,
                    n == cols * rows,
            ;
            cells.push(Cell { col: i / rows, row: i % rows, value: v, status: Status::Default });
            i += 1;
        }
        let g = Grid { cols, rows, cells };
        assert forall|j: int| 0 <= j < g.cells@.len() implies #[trigger] g.cells@[j].placed_at(
            j,
            rows as int,
        ) by {
            assert(valid_value(values@[j] as int));
        }
        Some(g)
    }

    /// Index of the cell at (`col`, `row`), if the board has one there.
    pub fn index_of(&self, col: usize, row: usize) -> (r: Option<usize>)
        requires
            self.wf(),
        ensures
            r is Some <==> (col < self.cols && row < self.rows),
            r matches Some(i) ==> {
                &&& i < self.cells@.len()
                &&& i == col * self.rows + row
                &&& self.cells@[i as int].col == col
                &&& self.cells@[i as int].row == row
            },
    {
        if col < self.cols && row < self.rows {
            let rows = self.rows;
            proof {
                lemma_index_in_bounds(col as int, row as int, self.cols as int, rows as int);
                lemma_fundamental_div_mod_converse(
                    col * rows + row,
                    rows as int,
                    col as int,
                    row as int,
                );
            }
            let i = col * rows + row;
            assert(self.cells@[i as int].placed_at(i as int, rows as int));
            Some(i)
        } else {
            None
        }
    }

    /// The cell at (`col`, `row`), if the board has one there.
    pub fn cell(&self, col: usize, row: usize) -> (r: Option<Cell>)
        requires
            self.wf(),
        ensures
            r is Some <==> (col < self.cols && row < self.rows),
            r matches Some(c) ==> {
                &&& c == self.cells@[col * self.rows + row]
                &&& c.col == col
                &&& c.row == row
            },
    {
        match self.index_of(col, row) {
            Some(i) => Some(self.cells[i]),
            None => None,
        }
    }

    /// Total value of the cells that are currently `Selected`.
    pub fn selected_total(&self) -> (t: usize)
        requires
            self.wf(),
        ensures
            t == selected_sum(self.cells@),
    {
        let mut t: usize = 0;
        let mut i: usize = 0;
        while i < self.cells.len()
            invariant
                self.wf(),
                i <= self.cells@.len(),
                t == selected_sum(self.cells@.subrange(0, i as int)),
                t <= MAX_VALUE * i,
            decreases self.cells@.len() - i,
        {
            let c = self.cells[i];
            assert(self.cells@.subrange(0, i + 1).drop_last() =~= self.cells@.subrange(0, i as int));
            assert(self.cells@[i as int].placed_at(i as int, self.rows as int));
            if c.status == Status::Selected {
                t = t + c.value;
            }
            i += 1;
        }
        assert(self.cells@.subrange(0, i as int) =~= self.cells@);
        t
    }

    /// Number of cells that are `Scored`: the score of the round so far.
    pub fn scored_count(&self) -> (n: usize)
        requires
            self.wf(),
        ensures
            n == scored_count(self.cells@),
            n <= self.cols * self.rows,
    {
        let mut n: usize = 0;
        let mut i: usize = 0;
        while i < self.cells.len()
            invariant
                self.wf(),
                i <= self.cells@.len(),
                n == scored_count(self.cells@.subrange(0, i as int)),
                n <= i,
            decreases self.cells@.len() - i,
        {
            assert(self.cells@.subrange(0, i + 1).drop_last() =~= self.cells@.subrange(0, i as int));
            if self.cells[i].status == Status::Scored {
                n = n + 1;
            }
            i += 1;
        }
        assert(self.cells@.subrange(0, i as int) =~= self.cells@);
        n
    }
}

proof fn lemma_index_in_bounds(col: int, row: int, cols: int, rows: int)
    requires
        0 <= col < cols,
        0 <= row < rows,
    ensures
        0 <= col * rows,
        col * rows + row < cols * rows,
{
    assert(0 <= col * rows) by (nonlinear_arith)
        requires
            0 <= col,
            0 <= rows,
    ;
    assert(col * rows + rows <= cols * rows) by (nonlinear_arith)
        requires
            col + 1 <= cols,
            0 <= rows,
    ;
}

/// Every cell of a well-formed board lies inside it, and no two cells share a coordinate.
pub proof fn lemma_coordinates_unique(g: &Grid)
    requires
        g.wf(),
    ensures
        forall|i: int|
            0 <= i < g.cells@.len() ==> #[trigger] g.cells@[i].col < g.cols && g.cells@[i].row
                < g.rows,
        forall|i: int, j: int|
            0 <= i < g.cells@.len() && 0 <= j < g.cells@.len() && i != j ==> (
            #[trigger] g.cells@[i].col != #[trigger] g.cells@[j].col || g.cells@[i].row
                != g.cells@[j].row),
{
    let rows = g.rows as int;
    let n = g.cells@.len();
    assert forall|i: int| 0 <= i < n implies #[trigger] g.cells@[i].col < g.cols
        && g.cells@[i].row < g.rows by {
        assert(g.cells@[i].placed_at(i, rows));
        lemma_fundamental_div_mod(i, rows);
        let q = i / rows;
        let r = i % rows;
        assert(0 <= r < rows);
        assert(q < g.cols) by (nonlinear_arith)
            requires
                i == rows * q + r,
                0 <= r < rows,
                i < g.cols * rows,
        ;
    }
    assert forall|i: int, j: int|
        0 <= i < n && 0 <= j < n && i != j implies (#[trigger] g.cells@[i].col
        != #[trigger] g.cells@[j].col || g.cells@[i].row != g.cells@[j].row) by {
        assert(g.cells@[i].placed_at(i, rows));
        assert(g.cells@[j].placed_at(j, rows));
        lemma_fundamental_div_mod(i, rows);
        lemma_fundamental_div_mod(j, rows);
    }
}

/// Relies on rand::random_range: on an inclusive range `lo..=hi` it returns a value inside the
/// range, drawn from the thread-local generator; it panics only when the range is empty.
#[verifier::external_body]
fn random_value(lo: usize, hi: usize) -> (v: usize)
    requires
        lo <= hi,
    ensures
        lo <= v <= hi,
{
    rand::random_range(lo..=hi)
}

/// A fresh `COLS` x `ROWS` board: each value is drawn uniformly from `MIN_VALUE..=MAX_VALUE`
/// and every cell is `Default`.
pub fn build_cells() -> (g: Grid)
    ensures
        g.wf(),
        g.cols == COLS,
        g.rows == ROWS,
        forall|i: int| 0 <= i < g.cells@.len() ==> (#[trigger] g.cells@[i]).status == Status::Default,
{
    let n: usize = COLS * ROWS;
    let mut values: Vec<usize> = Vec::new();
    let mut i: usize = 0;
    while i < n
        invariant
            n == COLS * ROWS,
            i <= n,
            values@.len() == i,
            forall|j: int| 0 <= j < i ==> valid_value(#[trigger] values@[j] as int),
        decreases n - i,
    {
        let v = random_value(MIN_VALUE, MAX_VALUE);
        values.push(v);
        i += 1;
    }
    Grid::from_values(COLS, ROWS, &values).unwrap()
}

} // verus!
