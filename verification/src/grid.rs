//! The mathematical model of a matrix.

use vstd::prelude::*;
use vstd::arithmetic::div_mod::lemma_fundamental_div_mod;
use vstd::arithmetic::div_mod::lemma_fundamental_div_mod_converse;
use vstd::arithmetic::div_mod::lemma_mod_bound;

verus! {

/// A grid of `rows` by `cols` values, held row after row in `cells`.
pub struct Grid<T> {
    pub rows: nat,
    pub cols: nat,
    pub cells: Seq<T>,
}

/// The cell `(r, c)` of a grid with `cols` columns lies inside the buffer, and
/// dividing its position by `cols` gives the row and the column back.
pub proof fn lemma_cell_position(rows: nat, cols: nat, r: int, c: int)
    requires
        0 <= r < rows,
        0 <= c < cols,
    ensures
        0 <= r * cols + c < rows * cols,
        (r * cols + c) / (cols as int) == r,
        (r * cols + c) % (cols as int) == c,
{
    assert(0 <= r * cols && r * cols + cols <= rows * cols) by (nonlinear_arith)
        requires
            0 <= r < rows,
            0 < cols,
    ;
    lemma_fundamental_div_mod_converse(r * cols + c, cols as int, r, c);
}

/// A position `i` inside the buffer of a grid with `cols` columns names the
/// cell in row `i / cols` and column `i % cols`.
pub proof fn lemma_position_cell(rows: nat, cols: nat, i: int)
    requires
        0 < cols,
        0 <= i < rows * cols,
    ensures
        0 <= i / (cols as int) < rows,
        0 <= i % (cols as int) < cols,
        i == (i / (cols as int)) * cols + i % (cols as int),
{
    let d = cols as int;
    lemma_fundamental_div_mod(i, d);
    lemma_mod_bound(i, d);
    let q = i / d;
    assert(d * q == q * d) by (nonlinear_arith);
    assert(0 <= q < rows) by (nonlinear_arith)
        requires
            0 < d,
            0 <= i < rows * d,
            i == q * d + i % d,
            0 <= i % d < d,
    ;
}

/// Row `r` of a grid with `cols` columns occupies the positions from
/// `r * cols` up to `r * cols + cols`, inside the buffer.
pub proof fn lemma_row_range(rows: nat, cols: nat, r: int)
    requires
        0 <= r < rows,
    ensures
        0 <= r * cols,
        r * cols + cols <= rows * cols,
        (r + 1) * cols == r * cols + cols,
{
    assert(0 <= r * cols && r * cols + cols <= rows * cols && (r + 1) * cols == r * cols + cols)
        by (nonlinear_arith)
        requires
            0 <= r < rows,
            0 <= cols,
    ;
}

impl<T> Grid<T> {
    /// The shape is not degenerate and the buffer holds exactly one value for
    /// each cell.
    pub open spec fn wf(self) -> bool {
        &&& self.rows > 0
        &&& self.cols > 0
        &&& self.cells.len() == self.rows * self.cols
    }

    /// The value in row `r`, column `c`.
    pub open spec fn at(self, r: int, c: int) -> T {
        self.cells[r * self.cols + c]
    }

    /// The grid whose cell `(r, c)` is `f(r, c)`.
    pub open spec fn tabulate(rows: nat, cols: nat, f: spec_fn(int, int) -> T) -> Grid<T> {
        Grid {
            rows,
            cols,
            cells: Seq::new(rows * cols, |i: int| f(i / (cols as int), i % (cols as int))),
        }
    }

    /// The grid with every cell equal to `x`.
    pub open spec fn filled(rows: nat, cols: nat, x: T) -> Grid<T> {
        Grid { rows, cols, cells: Seq::new(rows * cols, |i: int| x) }
    }

    /// Exactly one row and one column.
    pub open spec fn is_scalar(self) -> bool {
        self.rows == 1 && self.cols == 1
    }

    /// Row `r` as a sequence of `cols` values.
    pub open spec fn row(self, r: int) -> Seq<T> {
        self.cells.subrange(r * self.cols, r * self.cols + self.cols)
    }

    /// Column `c` as a sequence of `rows` values.
    pub open spec fn col(self, c: int) -> Seq<T> {
        Seq::new(self.rows, |r: int| self.at(r, c))
    }

    /// The same cells read under another shape.
    pub open spec fn reshaped(self, rows: nat, cols: nat) -> Grid<T> {
        Grid { rows, cols, cells: self.cells }
    }

    /// Rows and columns exchanged: cell `(r, c)` of the result is cell
    /// `(c, r)` of `self`.
    pub open spec fn transposed(self) -> Grid<T> {
        Grid::tabulate(self.cols, self.rows, |r: int, c: int| self.at(c, r))
    }

    /// `below` appended under `self`.
    pub open spec fn stacked(self, below: Grid<T>) -> Grid<T> {
        Grid { rows: self.rows + below.rows, cols: self.cols, cells: self.cells + below.cells }
    }

    /// `right` appended to the right of `self`, row by row.
    pub open spec fn joined(self, right: Grid<T>) -> Grid<T> {
        Grid::tabulate(
            self.rows,
            self.cols + right.cols,
            |r: int, c: int|
                if c < self.cols {
                    self.at(r, c)
                } else {
                    right.at(r, c - self.cols)
                },
        )
    }

    /// `f` applied to every cell.
    pub open spec fn mapped(self, f: spec_fn(T) -> T) -> Grid<T> {
        Grid {
            rows: self.rows,
            cols: self.cols,
            cells: Seq::new(self.cells.len(), |i: int| f(self.cells[i])),
        }
    }

    /// `f` applied to each pair of cells in the same position.
    pub open spec fn zipped(self, rhs: Grid<T>, f: spec_fn(T, T) -> T) -> Grid<T> {
        Grid {
            rows: self.rows,
            cols: self.cols,
            cells: Seq::new(self.cells.len(), |i: int| f(self.cells[i], rhs.cells[i])),
        }
    }

    /// The grid with cell `(r, c)` replaced by `x`.
    pub open spec fn with_cell(self, r: int, c: int, x: T) -> Grid<T> {
        Grid { rows: self.rows, cols: self.cols, cells: self.cells.update(r * self.cols + c, x) }
    }

    /// A tabulated grid is well formed and holds `f(r, c)` in cell `(r, c)`.
    pub proof fn lemma_tabulate(rows: nat, cols: nat, f: spec_fn(int, int) -> T)
        requires
            rows > 0,
            cols > 0,
        ensures
            Grid::tabulate(rows, cols, f).wf(),
            Grid::tabulate(rows, cols, f).rows == rows,
            Grid::tabulate(rows, cols, f).cols == cols,
            forall|r: int, c: int|
                0 <= r < rows && 0 <= c < cols ==> #[trigger] Grid::tabulate(rows, cols, f).at(r, c)
                    == f(r, c),
    {
        let g = Grid::tabulate(rows, cols, f);
        assert forall|r: int, c: int| 0 <= r < rows && 0 <= c < cols implies #[trigger] g.at(r, c)
            == f(r, c) by {
            lemma_cell_position(rows, cols, r, c);
        }
    }

    /// The transpose is well formed, with the two dimensions exchanged and
    /// cell `(c, r)` of `self` in its cell `(r, c)`.
    pub proof fn lemma_transposed(self)
        requires
            self.wf(),
        ensures
            self.transposed().wf(),
            self.transposed().rows == self.cols,
            self.transposed().cols == self.rows,
            forall|r: int, c: int|
                0 <= r < self.cols && 0 <= c < self.rows ==> #[trigger] self.transposed().at(r, c)
                    == self.at(c, r),
    {
        Grid::lemma_tabulate(self.cols, self.rows, |r: int, c: int| self.at(c, r));
    }

    /// Two grids with as many columns, stacked, are well formed: the rows of
    /// the first come first, the rows of the second follow.
    pub proof fn lemma_stacked(self, below: Grid<T>)
        requires
            self.wf(),
            below.wf(),
            self.cols == below.cols,
        ensures
            self.stacked(below).wf(),
            forall|r: int, c: int|
                0 <= r < self.rows + below.rows && 0 <= c < self.cols ==> #[trigger] self.stacked(
                    below,
                ).at(r, c) == if r < self.rows {
                    self.at(r, c)
                } else {
                    below.at(r - self.rows, c)
                },
    {
        let s = self.stacked(below);
        let a = self.rows as int;
        let b = below.rows as int;
        let w = self.cols as int;
        assert((a + b) * w == a * w + b * w) by (nonlinear_arith);
        assert forall|r: int, c: int| 0 <= r < a + b && 0 <= c < w implies #[trigger] s.at(r, c)
            == if r < a {
            self.at(r, c)
        } else {
            below.at(r - a, c)
        } by {
            lemma_cell_position((a + b) as nat, self.cols, r, c);
            if r < a {
                lemma_cell_position(self.rows, self.cols, r, c);
            } else {
                lemma_cell_position(below.rows, self.cols, r - a, c);
                assert(r * w + c == a * w + ((r - a) * w + c)) by (nonlinear_arith);
            }
        }
    }

    /// Two grids with as many rows, joined, are well formed: each row holds
    /// the row of the first and then the row of the second.
    pub proof fn lemma_joined(self, right: Grid<T>)
        requires
            self.wf(),
            right.wf(),
            self.rows == right.rows,
        ensures
            self.joined(right).wf(),
            self.joined(right).rows == self.rows,
            self.joined(right).cols == self.cols + right.cols,
            forall|r: int, c: int|
                0 <= r < self.rows && 0 <= c < self.cols + right.cols ==> #[trigger] self.joined(
                    right,
                ).at(r, c) == if c < self.cols {
                    self.at(r, c)
                } else {
                    right.at(r, c - self.cols)
                },
    {
        Grid::lemma_tabulate(
            self.rows,
            self.cols + right.cols,
            |r: int, c: int|
                if c < self.cols {
                    self.at(r, c)
                } else {
                    right.at(r, c - self.cols)
                },
        );
    }

    /// Row `c` of the transpose holds column `c`.
    pub proof fn lemma_transposed_row(self, c: int)
        requires
            self.wf(),
            0 <= c < self.cols,
        ensures
            self.transposed().row(c) == self.col(c),
    {
        let t = self.transposed();
        Grid::lemma_tabulate(self.cols, self.rows, |r: int, c: int| self.at(c, r));
        lemma_row_range(self.cols, self.rows, c);
        assert forall|r: int| 0 <= r < self.rows implies t.row(c)[r] == self.col(c)[r] by {
            lemma_cell_position(self.cols, self.rows, c, r);
            assert(t.row(c)[r] == t.at(c, r));
        }
        assert(t.row(c) =~= self.col(c));
    }

    /// Two well-formed grids of one shape that agree in every cell are equal.
    pub proof fn lemma_equal_by_cells(self, other: Grid<T>)
        requires
            self.wf(),
            other.wf(),
            self.rows == other.rows,
            self.cols == other.cols,
            forall|r: int, c: int|
                0 <= r < self.rows && 0 <= c < self.cols ==> self.at(r, c) == other.at(r, c),
        ensures
            self == other,
    {
        assert forall|i: int| 0 <= i < self.cells.len() implies self.cells[i] == other.cells[i] by {
            lemma_position_cell(self.rows, self.cols, i);
            let r = i / (self.cols as int);
            let c = i % (self.cols as int);
            assert(self.at(r, c) == other.at(r, c));
        }
        assert(self.cells =~= other.cells);
    }
}

} // verus!
