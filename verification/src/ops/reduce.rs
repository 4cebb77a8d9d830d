//! The reduction engine: one value for each row, for each column, or for the
//! whole matrix.

use vstd::prelude::*;
use vstd::slice::slice_subrange;
use crate::grid::Grid;
use crate::grid::lemma_row_range;
use crate::matrix::Axis;
use crate::matrix::Matrix;

verus! {

/// `y` is a value that `f` may return for a slice that holds `lane`.
pub open spec fn reduces<T, F: Fn(&[T]) -> T>(f: &F, lane: Seq<T>, y: T) -> bool {
    exists|s: &[T]| s@ == lane && #[trigger] call_ensures(f, (s,), y)
}

impl<T> Grid<T> {
    /// `s` is one of the rows.
    pub open spec fn has_row(self, s: Seq<T>) -> bool {
        exists|r: int| 0 <= r < self.rows && s == #[trigger] self.row(r)
    }

    /// `s` is one of the columns.
    pub open spec fn has_col(self, s: Seq<T>) -> bool {
        exists|c: int| 0 <= c < self.cols && s == #[trigger] self.col(c)
    }

    /// `s` is one of the sequences that a reduction along `ax` folds: a row
    /// for `Axis::ROW`, a column for `Axis::COLUMN`, and all the cells in
    /// row-major order where no axis is given.
    pub open spec fn has_lane(self, ax: Option<Axis>, s: Seq<T>) -> bool {
        match ax {
            Some(Axis::ROW) => self.has_row(s),
            Some(Axis::COLUMN) => self.has_col(s),
            None => s == self.cells,
        }
    }

    /// The sequence that gives cell `k` of a reduction along `ax`.
    pub open spec fn lane(self, ax: Option<Axis>, k: int) -> Seq<T> {
        match ax {
            Some(Axis::ROW) => self.row(k),
            Some(Axis::COLUMN) => self.col(k),
            None => self.cells,
        }
    }

    /// A sequence that a reduction along `ax` folds gives one of the cells of
    /// the result.
    pub proof fn lemma_lane_index(self, ax: Option<Axis>, s: Seq<T>)
        requires
            self.wf(),
            self.has_lane(ax, s),
        ensures
            exists|k: int| 0 <= k < self.reduced_len(ax) && s == #[trigger] self.lane(ax, k),
    {
        match ax {
            Some(Axis::ROW) => {
                let r = choose|r: int| 0 <= r < self.rows && s == #[trigger] self.row(r);
                assert(s == self.lane(ax, r));
            },
            Some(Axis::COLUMN) => {
                let c = choose|c: int| 0 <= c < self.cols && s == #[trigger] self.col(c);
                assert(s == self.lane(ax, c));
            },
            None => {
                assert(s == self.lane(ax, 0));
            },
        }
    }

    /// A sequence that a reduction folds is not empty.
    pub proof fn lemma_lane_len(self, ax: Option<Axis>, s: Seq<T>)
        requires
            self.wf(),
            self.has_lane(ax, s),
        ensures
            s.len() > 0,
    {
        match ax {
            Some(Axis::ROW) => {
                let r = choose|r: int| 0 <= r < self.rows && s == #[trigger] self.row(r);
                lemma_row_range(self.rows, self.cols, r);
            },
            Some(Axis::COLUMN) => {},
            None => {
                assert(self.rows * self.cols > 0) by (nonlinear_arith)
                    requires
                        self.rows > 0,
                        self.cols > 0,
                ;
            },
        }
    }

    /// The number of cells of a reduction along `ax`.
    pub open spec fn reduced_len(self, ax: Option<Axis>) -> nat {
        match ax {
            Some(Axis::ROW) => self.rows,
            Some(Axis::COLUMN) => self.cols,
            None => 1,
        }
    }

    /// The number of rows of a reduction along `ax`.
    pub open spec fn reduced_rows(self, ax: Option<Axis>) -> nat {
        match ax {
            Some(Axis::ROW) => self.rows,
            _ => 1,
        }
    }

    /// The number of columns of a reduction along `ax`.
    pub open spec fn reduced_cols(self, ax: Option<Axis>) -> nat {
        match ax {
            Some(Axis::COLUMN) => self.cols,
            _ => 1,
        }
    }

    /// The reduction along `ax` by `f`: `f` of each row as a column, `f` of
    /// each column as a row, or `f` of all the cells as a single value.
    pub open spec fn reduced(self, ax: Option<Axis>, f: spec_fn(Seq<T>) -> T) -> Grid<T> {
        Grid {
            rows: self.reduced_rows(ax),
            cols: self.reduced_cols(ax),
            cells: Seq::new(self.reduced_len(ax), |k: int| f(self.lane(ax, k))),
        }
    }
}

impl<T: Copy> Matrix<T> {
    /// One value for each row of the matrix: `f` of that row.
    pub fn reduce_rows<F: Fn(&[T]) -> T>(&self, f: &F) -> (out: Vec<T>)
        requires
            self.wf(),
            forall|s: &[T]| self@.has_row(s@) ==> call_requires(f, (s,)),
        ensures
            out@.len() == self@.rows,
            forall|r: int| 0 <= r < self@.rows ==> reduces(f, self@.row(r), #[trigger] out@[r]),
    {
        let n: usize = self.cols;
        let ghost m: usize = self.array.len();
        let mut out: Vec<T> = Vec::with_capacity(self.rows);
        let mut r: usize = 0;
        while r < self.rows
            invariant
                self.wf(),
                forall|s: &[T]| self@.has_row(s@) ==> call_requires(f, (s,)),
                n == self.cols,
                m == self.array@.len(),
                r <= self.rows,
                out@.len() == r,
                forall|i: int| 0 <= i < r ==> reduces(f, self@.row(i), #[trigger] out@[i]),
            decreases self.rows - r,
        {
            proof {
                lemma_row_range(self@.rows, self@.cols, r as int);
                assert(r * n + n <= m);
            }
            let row = slice_subrange(self.array.as_slice(), r * n, r * n + n);
            assert(row@ == self@.row(r as int));
            let x: T = f(row);
            assert(reduces(f, self@.row(r as int), x));
            out.push(x);
            r += 1;
        }
        out
    }

    /// The reduction of the matrix along `ax` by `f`.
    ///
    /// Along `Axis::ROW` the result is a column with `f` of each row. Along
    /// `Axis::COLUMN` it is a row with `f` of each column: the matrix is
    /// transposed and reduced row by row. Where no axis is given it is the
    /// single value `f` of all the cells in row-major order.
    pub fn reduce<F: Fn(&[T]) -> T>(&self, ax: Option<Axis>, f: &F) -> (out: Matrix<T>)
        requires
            self.wf(),
            forall|s: &[T]| self@.has_lane(ax, s@) ==> call_requires(f, (s,)),
        ensures
            out.wf(),
            out@.rows == self@.reduced_rows(ax),
            out@.cols == self@.reduced_cols(ax),
            out@.cells.len() == self@.reduced_len(ax),
            forall|k: int|
                0 <= k < out@.cells.len() ==> reduces(f, self@.lane(ax, k), #[trigger] out@.cells[k]),
    {
        match ax {
            Some(Axis::ROW) => {
                let array = self.reduce_rows(f);
                Matrix::from_vec_col(array)
            },
            Some(Axis::COLUMN) => {
                let flipped = self.transpose();
                proof {
                    self@.lemma_transposed();
                    assert forall|s: &[T]| flipped@.has_row(s@) implies call_requires(f, (s,)) by {
                        let c = choose|c: int| 0 <= c < flipped@.rows && s@ == flipped@.row(c);
                        self@.lemma_transposed_row(c);
                        assert(self@.has_col(s@));
                    }
                }
                let array = flipped.reduce_rows(f);
                proof {
                    assert forall|k: int| 0 <= k < array@.len() implies reduces(
                        f,
                        self@.col(k),
                        #[trigger] array@[k],
                    ) by {
                        self@.lemma_transposed_row(k);
                    }
                }
                Matrix::from_vec_row(array)
            },
            None => {
                let all = self.array.as_slice();
                let x: T = f(all);
                assert(reduces(f, self@.cells, x));
                Matrix { rows: 1, cols: 1, array: vec![x] }
            },
        }
    }
}

} // verus!
