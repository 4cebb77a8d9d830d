//! The compressed-row sparse form and its conversions to and from the dense
//! matrix.

use vstd::prelude::*;
use vstd::std_specs::ops::MulSpecImpl;
use vstd::std_specs::ops::AddSpec;
use vstd::std_specs::ops::MulSpec;
use std::ops::Add;
use std::ops::Mul;
use crate::dot::dot_prefix_req;
use crate::dot::dot_prefix_spec;
use crate::dot::dot_req;
use crate::dot::dot_spec;
use crate::dot::lemma_dot_prefix_req_earlier;
use crate::grid::Grid;
use crate::grid::lemma_cell_position;
use crate::grid::lemma_position_cell;
use crate::grid::lemma_row_range;
use crate::identities::Zero;
use crate::matrix::Matrix;

verus! {

/// A matrix in compressed-row form: the values that are kept, the column of
/// each, and for each row the range of positions that belong to it.
#[derive(Clone, Debug, PartialEq)]
pub struct SparseMatrix<T> {
    pub(crate) rows: usize,
    pub(crate) cols: usize,
    pub(crate) val: Vec<T>,
    pub(crate) col_idx: Vec<usize>,
    pub(crate) row_ptr: Vec<usize>,
}

/// The mathematical content of a sparse matrix.
pub struct Csr<T> {
    pub rows: nat,
    pub cols: nat,
    pub val: Seq<T>,
    pub col_idx: Seq<int>,
    pub row_ptr: Seq<int>,
}

/// The positions below `k` at which `cells` holds a value other than the
/// additive identity, in increasing order.
pub open spec fn nonzero_positions<T: Zero>(cells: Seq<T>, k: nat) -> Seq<int>
    decreases k,
{
    if k == 0 {
        Seq::empty()
    } else if cells[k - 1] == T::zero_spec() {
        nonzero_positions(cells, (k - 1) as nat)
    } else {
        nonzero_positions(cells, (k - 1) as nat).push(k - 1)
    }
}

impl<T> Csr<T> {
    /// The positions of row `r` form a range inside the stored values.
    pub proof fn lemma_row_positions(self, r: int)
        requires
            self.wf(),
            0 <= r < self.rows,
        ensures
            0 <= self.row_ptr[r] <= self.row_ptr[r + 1] <= self.val.len(),
    {
        self.lemma_row_ptr_low(r);
        self.lemma_row_ptr_high(r + 1);
        assert(self.row_ptr[r] <= self.row_ptr[r + 1]);
    }

    proof fn lemma_row_ptr_low(self, r: int)
        requires
            self.wf(),
            0 <= r <= self.rows,
        ensures
            0 <= self.row_ptr[r],
        decreases r,
    {
        if r > 0 {
            self.lemma_row_ptr_low(r - 1);
            assert(self.row_ptr[r - 1] <= self.row_ptr[r - 1 + 1]);
        }
    }

    proof fn lemma_row_ptr_high(self, r: int)
        requires
            self.wf(),
            0 <= r <= self.rows,
        ensures
            self.row_ptr[r] <= self.val.len(),
        decreases self.rows - r,
    {
        if r < self.rows {
            self.lemma_row_ptr_high(r + 1);
            assert(self.row_ptr[r] <= self.row_ptr[r + 1]);
        }
    }

    /// The row ranges start at zero, never go back and end at the number of
    /// values kept; each value has a column, and that column exists.
    pub open spec fn wf(self) -> bool {
        &&& self.rows > 0
        &&& self.cols > 0
        &&& self.row_ptr.len() == self.rows + 1
        &&& self.row_ptr[0] == 0
        &&& self.row_ptr[self.rows as int] == self.val.len()
        &&& self.col_idx.len() == self.val.len()
        &&& forall|i: int|
            0 <= i < self.rows ==> #[trigger] self.row_ptr[i] <= self.row_ptr[i + 1]
        &&& forall|n: int|
            0 <= n < self.col_idx.len() ==> 0 <= #[trigger] self.col_idx[n] < self.cols
    }

    /// The position, among those from `lo` up to `hi`, of the last value
    /// stored for column `c`, if there is one.
    pub open spec fn lookup(self, lo: int, hi: int, c: int) -> Option<int>
        decreases hi - lo,
    {
        if hi <= lo {
            None
        } else if self.col_idx[hi - 1] == c {
            Some(hi - 1)
        } else {
            self.lookup(lo, hi - 1, c)
        }
    }

    /// The values stored for row `r`, in order.
    pub open spec fn row_values(self, r: int) -> Seq<T> {
        self.val.subrange(self.row_ptr[r], self.row_ptr[r + 1])
    }

    /// For each value stored for row `r`, the cell of `v` that its column
    /// names.
    pub open spec fn row_picks(self, r: int, v: Seq<T>) -> Seq<T> {
        Seq::new(
            (self.row_ptr[r + 1] - self.row_ptr[r]) as nat,
            |k: int| v[self.col_idx[self.row_ptr[r] + k]],
        )
    }
}

impl<T: Zero> Csr<T> {
    /// The value that the positions from `lo` up to `hi` give to column `c`:
    /// the last value stored for it there, or the additive identity where
    /// none is stored.
    pub open spec fn stored(self, lo: int, hi: int, c: int) -> T {
        match self.lookup(lo, hi, c) {
            Some(n) => self.val[n],
            None => T::zero_spec(),
        }
    }

    /// The value of cell `(r, c)`: what the positions of row `r` give to
    /// column `c`.
    pub open spec fn entry(self, r: int, c: int) -> T {
        self.stored(self.row_ptr[r], self.row_ptr[r + 1], c)
    }

    /// The dense grid that the sparse form stands for.
    pub open spec fn dense(self) -> Grid<T> {
        Grid::tabulate(self.rows, self.cols, |r: int, c: int| self.entry(r, c))
    }

    /// The sparse form of a grid: its cells are scanned in row-major order,
    /// each cell other than the additive identity is kept with its column,
    /// and row `r` ranges over the cells kept from that row.
    pub open spec fn of(g: Grid<T>) -> Csr<T> {
        let kept = nonzero_positions(g.cells, g.cells.len());
        Csr {
            rows: g.rows,
            cols: g.cols,
            val: kept.map_values(|p: int| g.cells[p]),
            col_idx: kept.map_values(|p: int| p % (g.cols as int)),
            row_ptr: Seq::new(
                g.rows + 1,
                |r: int| nonzero_positions(g.cells, (r * g.cols) as nat).len() as int,
            ),
        }
    }
}

impl<T: Zero + Add<Output = T> + Mul<Output = T>> Csr<T> {
    /// `v` is a column with one cell for each column of `self`, and the dot
    /// product of the values stored for each row with the cells of `v` that
    /// their columns name can be computed.
    pub open spec fn can_times_col(self, v: Grid<T>) -> bool {
        &&& v.cols == 1
        &&& v.rows == self.cols
        &&& forall|r: int|
            0 <= r < self.rows ==> dot_req(#[trigger] self.row_values(r), self.row_picks(r, v.cells))
    }

    /// The product of the sparse matrix and a column: cell `r` is the dot
    /// product of the values stored for row `r` with the cells of `v` that
    /// their columns name.
    pub open spec fn times_col(self, v: Grid<T>) -> Grid<T> {
        Grid {
            rows: self.rows,
            cols: 1,
            cells: Seq::new(
                self.rows,
                |r: int| dot_spec(self.row_values(r), self.row_picks(r, v.cells)),
            ),
        }
    }
}

impl<T> View for SparseMatrix<T> {
    type V = Csr<T>;

    open(crate) spec fn view(&self) -> Csr<T> {
        Csr {
            rows: self.rows as nat,
            cols: self.cols as nat,
            val: self.val@,
            col_idx: self.col_idx@.map_values(|c: usize| c as int),
            row_ptr: self.row_ptr@.map_values(|p: usize| p as int),
        }
    }
}

/// The positions found below `j` are the first of those found below `k`, for
/// `j <= k`; all lie below the bound, in increasing order, at cells other than
/// the additive identity.
pub proof fn lemma_nonzero_positions<T: Zero>(cells: Seq<T>, j: nat, k: nat)
    requires
        j <= k,
    ensures
        nonzero_positions(cells, j).len() <= nonzero_positions(cells, k).len(),
        nonzero_positions(cells, k).len() <= k,
        forall|n: int|
            0 <= n < nonzero_positions(cells, j).len() ==> nonzero_positions(cells, j)[n]
                == #[trigger] nonzero_positions(cells, k)[n],
        forall|n: int|
            0 <= n < nonzero_positions(cells, k).len() ==> {
                &&& 0 <= #[trigger] nonzero_positions(cells, k)[n] < k
                &&& cells[nonzero_positions(cells, k)[n]] != T::zero_spec()
            },
        forall|n: int|
            nonzero_positions(cells, j).len() <= n < nonzero_positions(cells, k).len() ==> j
                <= #[trigger] nonzero_positions(cells, k)[n],
        forall|m: int, n: int|
            0 <= m < n < nonzero_positions(cells, k).len() ==> #[trigger] nonzero_positions(
                cells,
                k,
            )[m] < #[trigger] nonzero_positions(cells, k)[n],
    decreases k,
{
    if k > 0 {
        lemma_nonzero_positions(cells, 0, (k - 1) as nat);
        if j < k {
            lemma_nonzero_positions(cells, j, (k - 1) as nat);
        }
    }
}

impl<T> SparseMatrix<T> {
    /// The value is in compressed-row form.
    pub open spec fn wf(&self) -> bool {
        self@.wf()
    }

    /// The number of rows.
    pub fn rows(&self) -> (n: usize)
        ensures
            n == self@.rows,
    {
        self.rows
    }

    /// The number of columns.
    pub fn cols(&self) -> (n: usize)
        ensures
            n == self@.cols,
    {
        self.cols
    }

    /// The values that are kept, row after row.
    pub fn values(&self) -> (val: &[T])
        ensures
            val@ == self@.val,
    {
        self.val.as_slice()
    }

    /// The column of each value that is kept.
    pub fn col_indices(&self) -> (col_idx: &[usize])
        ensures
            col_idx@.map_values(|c: usize| c as int) == self@.col_idx,
    {
        self.col_idx.as_slice()
    }

    /// For each row the position of its first value, and at the end the
    /// number of values.
    pub fn row_pointers(&self) -> (row_ptr: &[usize])
        ensures
            row_ptr@.map_values(|p: usize| p as int) == self@.row_ptr,
    {
        self.row_ptr.as_slice()
    }
}

impl<T: Zero + Copy> Matrix<T> {
    /// The sparse form of the matrix: every cell other than the additive
    /// identity, in row-major order.
    pub fn to_sparse(&self) -> (out: SparseMatrix<T>)
        requires
            self.wf(),
        ensures
            out.wf(),
            out@ == Csr::of(self@),
    {
        let ghost target = Csr::of(self@);
        let ghost cells = self@.cells;
        let ghost n: usize = self.array.len();
        let mut val: Vec<T> = Vec::new();
        let mut col_idx: Vec<usize> = Vec::new();
        let mut row_ptr: Vec<usize> = Vec::new();
        row_ptr.push(0);
        let mut r: usize = 0;
        while r < self.rows
            invariant
                self.wf(),
                cells == self@.cells,
                n == self.array@.len(),
                target == Csr::of(self@),
                r <= self.rows,
                val@.len() == nonzero_positions(cells, (r * self.cols) as nat).len(),
                col_idx@.len() == val@.len(),
                forall|m: int|
                    0 <= m < val@.len() ==> #[trigger] val@[m] == cells[nonzero_positions(
                        cells,
                        (r * self.cols) as nat,
                    )[m]],
                forall|m: int|
                    0 <= m < val@.len() ==> #[trigger] col_idx@[m] == nonzero_positions(
                        cells,
                        (r * self.cols) as nat,
                    )[m] % (self.cols as int),
                row_ptr@.len() == r + 1,
                forall|i: int|
                    0 <= i <= r ==> #[trigger] row_ptr@[i] == nonzero_positions(
                        cells,
                        (i * self.cols) as nat,
                    ).len(),
            decreases self.rows - r,
        {
            proof {
                lemma_row_range(self@.rows, self@.cols, r as int);
            }
            let mut c: usize = 0;
            while c < self.cols
                invariant
                    self.wf(),
                    cells == self@.cells,
                    n == self.array@.len(),
                    r < self.rows,
                    c <= self.cols,
                    0 <= r * self.cols,
                    r * self.cols + self.cols <= n,
                    val@.len() == nonzero_positions(cells, (r * self.cols + c) as nat).len(),
                    col_idx@.len() == val@.len(),
                    forall|m: int|
                        0 <= m < val@.len() ==> #[trigger] val@[m] == cells[nonzero_positions(
                            cells,
                            (r * self.cols + c) as nat,
                        )[m]],
                    forall|m: int|
                        0 <= m < val@.len() ==> #[trigger] col_idx@[m] == nonzero_positions(
                            cells,
                            (r * self.cols + c) as nat,
                        )[m] % (self.cols as int),
                decreases self.cols - c,
            {
                let x: T = self.array[r * self.cols + c];
                proof {
                    lemma_cell_position(self@.rows, self@.cols, r as int, c as int);
                    lemma_nonzero_positions(
                        cells,
                        (r * self.cols + c) as nat,
                        (r * self.cols + c + 1) as nat,
                    );
                }
                if !x.is_zero() {
                    val.push(x);
                    col_idx.push(c);
                }
                c += 1;
            }
            proof {
                assert((r + 1) * self.cols == r * self.cols + self.cols) by (nonlinear_arith);
                lemma_nonzero_positions(cells, ((r + 1) * self.cols) as nat, n as nat);
            }
            row_ptr.push(val.len());
            r += 1;
        }
        proof {
            assert(val@ =~= target.val);
            assert(col_idx@.map_values(|c: usize| c as int) =~= target.col_idx);
            assert(row_ptr@.map_values(|p: usize| p as int) =~= target.row_ptr);
            lemma_of_wf(self@);
        }
        SparseMatrix { rows: self.rows, cols: self.cols, val, col_idx, row_ptr }
    }
}

impl<T: Zero + Copy> SparseMatrix<T> {
    /// The sparse form of a matrix of `R` rows and `C` columns given by its
    /// rows.
    pub fn new<const R: usize, const C: usize>(data: [[T; C]; R]) -> (out: Self)
        requires
            R != 0,
            C != 0,
        ensures
            out.wf(),
            out@ == Csr::of(Grid::tabulate(R as nat, C as nat, |r: int, c: int| data@[r]@[c])),
    {
        Matrix::new(data).to_sparse()
    }

    /// The dense matrix that the sparse form stands for: the additive
    /// identity in every cell but those for which a value is stored.
    pub fn to_dence(&self) -> (out: Matrix<T>)
        requires
            self.wf(),
            self@.rows * self@.cols <= usize::MAX,
        ensures
            out.wf(),
            out@ == self@.dense(),
    {
        let ghost target = self@.dense();
        proof {
            Grid::lemma_tabulate(self@.rows, self@.cols, |r: int, c: int| self@.entry(r, c));
        }
        let mut mat: Matrix<T> = Matrix::zero(self.rows, self.cols);
        let ghost total: usize = mat.array.len();
        proof {
            assert forall|r: int, c: int|
                0 <= r < self.rows && 0 <= c < self.cols implies #[trigger] mat.array@[r * self.cols
                + c] == T::zero_spec() by {
                lemma_cell_position(self@.rows, self@.cols, r, c);
            }
        }
        let mut i: usize = 0;
        while i < self.rows
            invariant
                self.wf(),
                mat.rows == self.rows,
                mat.cols == self.cols,
                total == mat.array@.len(),
                total == self.rows * self.cols,
                i <= self.rows,
                forall|r: int, c: int|
                    0 <= r < self.rows && 0 <= c < self.cols ==> #[trigger] mat.array@[r * self.cols
                        + c] == if r < i {
                        self@.entry(r, c)
                    } else {
                        T::zero_spec()
                    },
            decreases self.rows - i,
        {
            proof {
                self@.lemma_row_positions(i as int);
            }
            let lo: usize = self.row_ptr[i];
            let hi: usize = self.row_ptr[i + 1];
            let mut n: usize = lo;
            while n < hi
                invariant
                    self.wf(),
                    mat.rows == self.rows,
                    mat.cols == self.cols,
                    total == mat.array@.len(),
                    total == self.rows * self.cols,
                    i < self.rows,
                    lo == self@.row_ptr[i as int],
                    hi == self@.row_ptr[i + 1],
                    lo <= n <= hi,
                    hi <= self.val@.len(),
                    forall|r: int, c: int|
                        0 <= r < self.rows && 0 <= c < self.cols ==> #[trigger] mat.array@[r
                            * self.cols + c] == if r < i {
                            self@.entry(r, c)
                        } else if r == i {
                            self@.stored(lo as int, n as int, c)
                        } else {
                            T::zero_spec()
                        },
                decreases hi - n,
            {
                let col: usize = self.col_idx[n];
                proof {
                    assert(0 <= self@.col_idx[n as int] < self.cols);
                    lemma_cell_position(self@.rows, self@.cols, i as int, col as int);
                    assert(0 <= i * self.cols + col < total);
                }
                let ghost before = mat.array@;
                mat.array.set(i * self.cols + col, self.val[n]);
                proof {
                    assert forall|r: int, c: int|
                        0 <= r < self.rows && 0 <= c < self.cols implies #[trigger] mat.array@[r
                        * self.cols + c] == if r < i {
                        self@.entry(r, c)
                    } else if r == i {
                        self@.stored(lo as int, n + 1, c)
                    } else {
                        T::zero_spec()
                    } by {
                        lemma_cell_position(self@.rows, self@.cols, r, c);
                        if r * self.cols + c == i * self.cols + col {
                            assert(r == i && c == col);
                        } else {
                            assert(mat.array@[r * self.cols + c] == before[r * self.cols + c]);
                        }
                    }
                }
                n += 1;
            }
            i += 1;
        }
        proof {
            assert forall|k: int| 0 <= k < total implies mat.array@[k] == target.cells[k] by {
                lemma_position_cell(self@.rows, self@.cols, k);
                let r = k / (self.cols as int);
                let c = k % (self.cols as int);
                assert(mat.array@[r * self.cols + c] == target.at(r, c));
            }
            assert(mat.array@ =~= target.cells);
        }
        mat
    }
}

impl<T: Zero + Copy + Add<Output = T> + Mul<Output = T>> SparseMatrix<T> {
    /// The product of the sparse matrix and a dense column: cell `r` is the
    /// sum, over the values stored for row `r` in their order, of the value
    /// times the cell of `rhs` that its column names.
    pub fn times_col(&self, rhs: &Matrix<T>) -> (out: Matrix<T>)
        requires
            self.wf(),
            rhs.wf(),
            T::obeys_add_spec(),
            T::obeys_mul_spec(),
            self@.can_times_col(rhs@),
        ensures
            out.wf(),
            out@ == self@.times_col(rhs@),
    {
        let ghost m: usize = rhs.array.len();
        let mut array: Vec<T> = Vec::with_capacity(self.rows);
        let mut i: usize = 0;
        while i < self.rows
            invariant
                self.wf(),
                rhs.wf(),
                T::obeys_add_spec(),
                T::obeys_mul_spec(),
                self@.can_times_col(rhs@),
                m == rhs.array@.len(),
                i <= self.rows,
                array@.len() == i,
                forall|r: int|
                    0 <= r < i ==> #[trigger] array@[r] == dot_spec(
                        self@.row_values(r),
                        self@.row_picks(r, rhs@.cells),
                    ),
            decreases self.rows - i,
        {
            proof {
                self@.lemma_row_positions(i as int);
            }
            let lo: usize = self.row_ptr[i];
            let hi: usize = self.row_ptr[i + 1];
            let ghost values = self@.row_values(i as int);
            let ghost picks = self@.row_picks(i as int, rhs@.cells);
            proof {
                assert(dot_req(values, picks));
            }
            let mut acc: T = T::zero();
            let mut n: usize = lo;
            while n < hi
                invariant
                    self.wf(),
                    rhs.wf(),
                    T::obeys_add_spec(),
                    T::obeys_mul_spec(),
                    rhs@.cols == 1,
                    rhs@.rows == self@.cols,
                    m == rhs.array@.len(),
                    i < self.rows,
                    lo == self@.row_ptr[i as int],
                    hi == self@.row_ptr[i + 1],
                    lo <= n <= hi,
                    hi <= self.val@.len(),
                    values == self@.row_values(i as int),
                    picks == self@.row_picks(i as int, rhs@.cells),
                    values.len() == hi - lo,
                    dot_prefix_req(values, picks, (hi - lo) as nat),
                    acc == dot_prefix_spec(values, picks, (n - lo) as nat),
                decreases hi - n,
            {
                let col: usize = self.col_idx[n];
                proof {
                    lemma_dot_prefix_req_earlier(values, picks, (n - lo + 1) as nat, (hi - lo) as nat);
                    assert(0 <= self@.col_idx[n as int] < self.cols);
                    assert(values[n - lo] == self.val@[n as int]);
                    assert(picks[n - lo] == rhs.array@[col as int]);
                }
                acc = acc + self.val[n] * rhs.array[col];
                n += 1;
            }
            array.push(acc);
            i += 1;
        }
        let out = Matrix { rows: self.rows, cols: 1, array };
        proof {
            assert(out@.cells =~= self@.times_col(rhs@).cells);
            assert(out@.rows * out@.cols == out@.rows) by (nonlinear_arith)
                requires
                    out@.cols == 1,
            ;
        }
        out
    }
}

/// The sparse form of a well-formed grid is well formed, and no value that
/// it keeps is the additive identity.
pub proof fn lemma_of_wf<T: Zero>(g: Grid<T>)
    requires
        g.wf(),
    ensures
        Csr::of(g).wf(),
        forall|n: int| 0 <= n < Csr::of(g).val.len() ==> #[trigger] Csr::of(g).val[n] != T::zero_spec(),
{
    let s = Csr::of(g);
    let total = g.cells.len();
    assert(g.rows * g.cols == total);
    lemma_nonzero_positions(g.cells, 0, total);
    assert forall|i: int| 0 <= i < g.rows implies #[trigger] s.row_ptr[i] <= s.row_ptr[i + 1] by {
        lemma_row_range(g.rows, g.cols, i);
        lemma_nonzero_positions(g.cells, (i * g.cols) as nat, ((i + 1) * g.cols) as nat);
        lemma_nonzero_positions(g.cells, ((i + 1) * g.cols) as nat, total);
    }
    assert forall|n: int| 0 <= n < s.col_idx.len() implies 0 <= #[trigger] s.col_idx[n]
        < g.cols by {
        let p = nonzero_positions(g.cells, total)[n];
        lemma_position_cell(g.rows, g.cols, p);
    }
    assert(s.row_ptr[0] == 0) by {
        assert(0 * g.cols == 0) by (nonlinear_arith);
    }
}

impl<'a, 'b, T: Zero + Copy + Add<Output = T> + Mul<Output = T>> MulSpecImpl<&'b Matrix<T>> for &'a SparseMatrix<T> {
    /// What the operator returns is stated by its own `ensures`, not by
    /// `mul_spec`.
    open spec fn obeys_mul_spec() -> bool {
        false
    }

    /// What the operator asks of its operands.
    open spec fn mul_req(self, rhs: &'b Matrix<T>) -> bool {
        &&& self.wf()
        &&& rhs.wf()
        &&& T::obeys_add_spec()
        &&& T::obeys_mul_spec()
        &&& self@.can_times_col(rhs@)
    }

    /// Left open: see `obeys_mul_spec`.
    open spec fn mul_spec(self, rhs: &'b Matrix<T>) -> Matrix<T> {
        arbitrary()
    }
}

impl<'a, 'b, T: Zero + Copy + Add<Output = T> + Mul<Output = T>> Mul<&'b Matrix<T>> for &'a SparseMatrix<T> {
    type Output = Matrix<T>;

    /// The product of the sparse matrix and a dense column.
    fn mul(self, rhs: &'b Matrix<T>) -> (out: Matrix<T>)
        ensures
            out.wf(),
            out@ == self@.times_col(rhs@),
    {
        SparseMatrix::times_col(self, rhs)
    }
}

impl<'b, T: Zero + Copy + Add<Output = T> + Mul<Output = T>> MulSpecImpl<&'b Matrix<T>> for SparseMatrix<T> {
    /// What the operator returns is stated by its own `ensures`, not by
    /// `mul_spec`.
    open spec fn obeys_mul_spec() -> bool {
        false
    }

    /// What the operator asks of its operands.
    open spec fn mul_req(self, rhs: &'b Matrix<T>) -> bool {
        &&& self.wf()
        &&& rhs.wf()
        &&& T::obeys_add_spec()
        &&& T::obeys_mul_spec()
        &&& self@.can_times_col(rhs@)
    }

    /// Left open: see `obeys_mul_spec`.
    open spec fn mul_spec(self, rhs: &'b Matrix<T>) -> Matrix<T> {
        arbitrary()
    }
}

impl<'b, T: Zero + Copy + Add<Output = T> + Mul<Output = T>> Mul<&'b Matrix<T>> for SparseMatrix<T> {
    type Output = Matrix<T>;

    /// The product of the sparse matrix and a dense column.
    fn mul(self, rhs: &'b Matrix<T>) -> (out: Matrix<T>)
        ensures
            out.wf(),
            out@ == self@.times_col(rhs@),
    {
        SparseMatrix::times_col(&self, rhs)
    }
}

impl<'a, T: Zero + Copy + Add<Output = T> + Mul<Output = T>> MulSpecImpl<Matrix<T>> for &'a SparseMatrix<T> {
    /// What the operator returns is stated by its own `ensures`, not by
    /// `mul_spec`.
    open spec fn obeys_mul_spec() -> bool {
        false
    }

    /// What the operator asks of its operands.
    open spec fn mul_req(self, rhs: Matrix<T>) -> bool {
        &&& self.wf()
        &&& rhs.wf()
        &&& T::obeys_add_spec()
        &&& T::obeys_mul_spec()
        &&& self@.can_times_col(rhs@)
    }

    /// Left open: see `obeys_mul_spec`.
    open spec fn mul_spec(self, rhs: Matrix<T>) -> Matrix<T> {
        arbitrary()
    }
}

impl<'a, T: Zero + Copy + Add<Output = T> + Mul<Output = T>> Mul<Matrix<T>> for &'a SparseMatrix<T> {
    type Output = Matrix<T>;

    /// The product of the sparse matrix and a dense column.
    fn mul(self, rhs: Matrix<T>) -> (out: Matrix<T>)
        ensures
            out.wf(),
            out@ == self@.times_col(rhs@),
    {
        SparseMatrix::times_col(self, &rhs)
    }
}

impl<T: Zero + Copy + Add<Output = T> + Mul<Output = T>> MulSpecImpl<Matrix<T>> for SparseMatrix<T> {
    /// What the operator returns is stated by its own `ensures`, not by
    /// `mul_spec`.
    open spec fn obeys_mul_spec() -> bool {
        false
    }

    /// What the operator asks of its operands.
    open spec fn mul_req(self, rhs: Matrix<T>) -> bool {
        &&& self.wf()
        &&& rhs.wf()
        &&& T::obeys_add_spec()
        &&& T::obeys_mul_spec()
        &&& self@.can_times_col(rhs@)
    }

    /// Left open: see `obeys_mul_spec`.
    open spec fn mul_spec(self, rhs: Matrix<T>) -> Matrix<T> {
        arbitrary()
    }
}

impl<T: Zero + Copy + Add<Output = T> + Mul<Output = T>> Mul<Matrix<T>> for SparseMatrix<T> {
    type Output = Matrix<T>;

    /// The product of the sparse matrix and a dense column.
    fn mul(self, rhs: Matrix<T>) -> (out: Matrix<T>)
        ensures
            out.wf(),
            out@ == self@.times_col(rhs@),
    {
        SparseMatrix::times_col(&self, &rhs)
    }
}

} // verus!
