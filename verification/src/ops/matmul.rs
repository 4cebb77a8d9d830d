//! Matrix multiplication, and the cell-by-cell product and quotient.

use vstd::prelude::*;
use vstd::std_specs::ops::MulSpecImpl;
use vstd::slice::slice_subrange;
use vstd::std_specs::ops::AddSpec;
use vstd::std_specs::ops::DivSpec;
use vstd::std_specs::ops::MulSpec;
use std::ops::Add;
use std::ops::Div;
use std::ops::Mul;
use crate::dot::dot;
use crate::dot::dot_req;
use crate::dot::dot_spec;
use crate::grid::Grid;
use crate::grid::lemma_cell_position;
use crate::grid::lemma_row_range;
use crate::identities::Zero;
use crate::matrix::Matrix;

verus! {

impl<T: Mul<Output = T>> Grid<T> {
    /// The two grids have one shape and each pair of cells can be multiplied.
    pub open spec fn can_cwise_times(self, rhs: Grid<T>) -> bool {
        &&& self.rows == rhs.rows
        &&& self.cols == rhs.cols
        &&& forall|i: int|
            0 <= i < self.cells.len() ==> (#[trigger] self.cells[i]).mul_req(rhs.cells[i])
    }

    /// The cell-by-cell product.
    pub open spec fn cwise_times(self, rhs: Grid<T>) -> Grid<T> {
        self.zipped(rhs, |x: T, y: T| x.mul_spec(y))
    }
}

impl<T: Div<Output = T>> Grid<T> {
    /// The two grids have one shape and each cell of `self` can be divided by
    /// the cell of `rhs` in the same position.
    pub open spec fn can_cwise_over(self, rhs: Grid<T>) -> bool {
        &&& self.rows == rhs.rows
        &&& self.cols == rhs.cols
        &&& forall|i: int|
            0 <= i < self.cells.len() ==> (#[trigger] self.cells[i]).div_req(rhs.cells[i])
    }

    /// The cell-by-cell quotient.
    pub open spec fn cwise_over(self, rhs: Grid<T>) -> Grid<T> {
        self.zipped(rhs, |x: T, y: T| x.div_spec(y))
    }
}

impl<T: Zero + Add<Output = T> + Mul<Output = T>> Grid<T> {
    /// The shapes fit and every multiplication and addition of the product is
    /// permitted by the element type.
    ///
    /// A grid of one cell fits any other grid. Otherwise `self` must have as
    /// many columns as `rhs` has rows.
    pub open spec fn can_times(self, rhs: Grid<T>) -> bool {
        if self.is_scalar() {
            forall|i: int|
                0 <= i < rhs.cells.len() ==> self.cells[0].mul_req(#[trigger] rhs.cells[i])
        } else if rhs.is_scalar() {
            forall|i: int|
                0 <= i < self.cells.len() ==> (#[trigger] self.cells[i]).mul_req(rhs.cells[0])
        } else if self.cols != rhs.rows {
            false
        } else if self.cols == 1 {
            forall|r: int, c: int|
                0 <= r < self.rows && 0 <= c < rhs.cols ==> (#[trigger] self.cells[r]).mul_req(
                    #[trigger] rhs.cells[c],
                )
        } else {
            forall|r: int, c: int|
                0 <= r < self.rows && 0 <= c < rhs.cols ==> dot_req(
                    #[trigger] self.row(r),
                    #[trigger] rhs.col(c),
                )
        }
    }

    /// The product of two grids.
    ///
    /// - A grid of one cell multiplies every cell of the other grid, from the
    ///   side on which it stands.
    /// - A single column times a single row is the outer product: cell
    ///   `(r, c)` is the one product `self[r] * rhs[c]`, with nothing added.
    /// - In every other case cell `(r, c)` is the dot product of row `r` of
    ///   `self` and column `c` of `rhs`.
    pub open spec fn times(self, rhs: Grid<T>) -> Grid<T> {
        if self.is_scalar() {
            rhs.mapped(|x: T| self.cells[0].mul_spec(x))
        } else if rhs.is_scalar() {
            self.mapped(|x: T| x.mul_spec(rhs.cells[0]))
        } else if self.cols == 1 {
            Grid::tabulate(
                self.rows,
                rhs.cols,
                |r: int, c: int| self.cells[r].mul_spec(rhs.cells[c]),
            )
        } else {
            Grid::tabulate(
                self.rows,
                rhs.cols,
                |r: int, c: int| dot_spec(self.row(r), rhs.col(c)),
            )
        }
    }
}

impl<T: Copy + Mul<Output = T>> Matrix<T> {
    /// The cell-by-cell product of two matrices of the same shape.
    pub fn cwise_mul(&self, rhs: &Matrix<T>) -> (out: Matrix<T>)
        requires
            self.wf(),
            rhs.wf(),
            self@.can_cwise_times(rhs@),
        ensures
            out.wf(),
            out@.rows == self@.rows,
            out@.cols == self@.cols,
            T::obeys_mul_spec() ==> out@ == self@.cwise_times(rhs@),
    {
        let product = |x: T, y: T| -> (z: T)
            requires
                x.mul_req(y),
            ensures
                T::obeys_mul_spec() ==> z == x.mul_spec(y),
            {
                x * y
            };
        let out = self.zip_with(rhs, product);
        proof {
            if T::obeys_mul_spec() {
                assert(out@.cells =~= self@.cwise_times(rhs@).cells);
            }
        }
        out
    }
}

impl<T: Copy + Div<Output = T>> Matrix<T> {
    /// The cell-by-cell quotient of two matrices of the same shape.
    pub fn cwise_div(&self, rhs: &Matrix<T>) -> (out: Matrix<T>)
        requires
            self.wf(),
            rhs.wf(),
            self@.can_cwise_over(rhs@),
        ensures
            out.wf(),
            out@.rows == self@.rows,
            out@.cols == self@.cols,
            T::obeys_div_spec() ==> out@ == self@.cwise_over(rhs@),
    {
        let quotient = |x: T, y: T| -> (z: T)
            requires
                x.div_req(y),
            ensures
                T::obeys_div_spec() ==> z == x.div_spec(y),
            {
                x / y
            };
        let out = self.zip_with(rhs, quotient);
        proof {
            if T::obeys_div_spec() {
                assert(out@.cells =~= self@.cwise_over(rhs@).cells);
            }
        }
        out
    }
}

impl<T: Copy + Zero + Add<Output = T> + Mul<Output = T>> Matrix<T> {
    /// The matrix product `self * rhs`.
    ///
    /// The shape of the operands selects one of these paths, in this order:
    /// a single value times a single value; a single value times a matrix; a
    /// matrix times a single value; a row times a column (one dot product); a
    /// row times a matrix; a matrix times a column; a column times a row (the
    /// outer product); and the general product, which transposes `rhs` once
    /// so that every dot product reads two contiguous ranges.
    pub fn times(&self, rhs: &Matrix<T>) -> (out: Matrix<T>)
        requires
            self.wf(),
            rhs.wf(),
            T::obeys_add_spec(),
            T::obeys_mul_spec(),
            self@.can_times(rhs@),
        ensures
            out.wf(),
            out@ == self@.times(rhs@),
    {
        if self.is_scalar() && rhs.is_scalar() {
            let array: Vec<T> = vec![self.array[0] * rhs.array[0]];
            proof {
                assert(array@ =~= self@.times(rhs@).cells);
            }
            Matrix { rows: 1, cols: 1, array }
        } else if self.is_scalar() {
            let s: T = self.array[0];
            let scale = |x: T| -> (z: T)
                requires
                    s.mul_req(x),
                ensures
                    z == s.mul_spec(x),
                {
                    s * x
                };
            let out = rhs.map(scale);
            proof {
                assert(out@.cells =~= self@.times(rhs@).cells);
            }
            out
        } else if rhs.is_scalar() {
            let s: T = rhs.array[0];
            let scale = |x: T| -> (z: T)
                requires
                    x.mul_req(s),
                ensures
                    z == x.mul_spec(s),
                {
                    x * s
                };
            let out = self.map(scale);
            proof {
                assert(out@.cells =~= self@.times(rhs@).cells);
            }
            out
        } else if self.rows == 1 && rhs.cols == 1 {
            self.mul_row_col(rhs)
        } else if self.rows == 1 {
            self.mul_row_matrix(rhs)
        } else if rhs.cols == 1 {
            self.mul_matrix_col(rhs)
        } else if self.cols == 1 {
            self.mul_col_row(rhs)
        } else {
            self.mul_general(rhs)
        }
    }

    /// A row times a column: the one dot product of the two buffers.
    fn mul_row_col(&self, rhs: &Matrix<T>) -> (out: Matrix<T>)
        requires
            self.wf(),
            rhs.wf(),
            T::obeys_add_spec(),
            T::obeys_mul_spec(),
            self@.can_times(rhs@),
            self@.rows == 1,
            rhs@.cols == 1,
            self@.cols > 1,
            rhs@.rows > 1,
        ensures
            out.wf(),
            out@ == self@.times(rhs@),
    {
        proof {
            assert(self@.row(0) =~= self@.cells);
            assert(rhs@.col(0) =~= rhs@.cells);
            assert(dot_req(self@.row(0), rhs@.col(0)));
        }
        let s: T = dot(self.array.as_slice(), rhs.array.as_slice());
        let array: Vec<T> = vec![s];
        proof {
            assert(array@ =~= self@.times(rhs@).cells);
        }
        Matrix { rows: 1, cols: 1, array }
    }

    /// A row times a matrix: one dot product for each column of `rhs`, read
    /// as a row of its transpose.
    fn mul_row_matrix(&self, rhs: &Matrix<T>) -> (out: Matrix<T>)
        requires
            self.wf(),
            rhs.wf(),
            T::obeys_add_spec(),
            T::obeys_mul_spec(),
            self@.can_times(rhs@),
            self@.rows == 1,
            self@.cols > 1,
            rhs@.cols > 1,
        ensures
            out.wf(),
            out@ == self@.times(rhs@),
    {
        let flipped = rhs.transpose();
        let n: usize = self.cols;
        let ghost m: usize = flipped.array.len();
        let mut array: Vec<T> = Vec::with_capacity(rhs.cols);
        let mut c: usize = 0;
        while c < rhs.cols
            invariant
                self.wf(),
                rhs.wf(),
                flipped.wf(),
                flipped@ == rhs@.transposed(),
                T::obeys_add_spec(),
                T::obeys_mul_spec(),
                self@.can_times(rhs@),
                self@.rows == 1,
                self@.cols > 1,
                rhs@.cols > 1,
                n == self.cols,
                m == flipped.array@.len(),
                c <= rhs.cols,
                array@.len() == c,
                forall|j: int|
                    0 <= j < c ==> #[trigger] array@[j] == dot_spec(self@.row(0), rhs@.col(j)),
            decreases rhs.cols - c,
        {
            proof {
                Grid::lemma_tabulate(rhs@.cols, rhs@.rows, |r: int, c: int| rhs@.at(c, r));
                rhs@.lemma_transposed_row(c as int);
                lemma_row_range(flipped@.rows, flipped@.cols, c as int);
                assert(self@.row(0) =~= self@.cells);
                assert(dot_req(self@.row(0), rhs@.col(c as int)));
                assert(c * n + n <= m);
            }
            let column = slice_subrange(flipped.array.as_slice(), c * n, c * n + n);
            assert(column@ == flipped@.row(c as int));
            array.push(dot(self.array.as_slice(), column));
            c += 1;
        }
        proof {
            let target = self@.times(rhs@);
            Grid::lemma_tabulate(
                self@.rows,
                rhs@.cols,
                |r: int, c: int| dot_spec(self@.row(r), rhs@.col(c)),
            );
            assert forall|j: int| 0 <= j < array@.len() implies array@[j] == target.cells[j] by {
                lemma_cell_position(1, rhs@.cols, 0, j);
                assert(target.at(0, j) == dot_spec(self@.row(0), rhs@.col(j)));
            }
            assert(array@ =~= target.cells);
        }
        Matrix { rows: 1, cols: rhs.cols, array }
    }

    /// A matrix times a column: one dot product for each row of `self`.
    fn mul_matrix_col(&self, rhs: &Matrix<T>) -> (out: Matrix<T>)
        requires
            self.wf(),
            rhs.wf(),
            T::obeys_add_spec(),
            T::obeys_mul_spec(),
            self@.can_times(rhs@),
            rhs@.cols == 1,
            rhs@.rows > 1,
            self@.rows > 1,
            self@.cols > 1,
        ensures
            out.wf(),
            out@ == self@.times(rhs@),
    {
        let n: usize = self.cols;
        let ghost m: usize = self.array.len();
        let mut array: Vec<T> = Vec::with_capacity(self.rows);
        let mut r: usize = 0;
        while r < self.rows
            invariant
                self.wf(),
                rhs.wf(),
                T::obeys_add_spec(),
                T::obeys_mul_spec(),
                self@.can_times(rhs@),
                rhs@.cols == 1,
                rhs@.rows > 1,
                self@.rows > 1,
                self@.cols > 1,
                n == self.cols,
                m == self.array@.len(),
                r <= self.rows,
                array@.len() == r,
                forall|i: int|
                    0 <= i < r ==> #[trigger] array@[i] == dot_spec(self@.row(i), rhs@.col(0)),
            decreases self.rows - r,
        {
            proof {
                lemma_row_range(self@.rows, self@.cols, r as int);
                assert(rhs@.col(0) =~= rhs@.cells);
                assert(dot_req(self@.row(r as int), rhs@.col(0)));
                assert(r * n + n <= m);
            }
            let row = slice_subrange(self.array.as_slice(), r * n, r * n + n);
            assert(row@ == self@.row(r as int));
            array.push(dot(row, rhs.array.as_slice()));
            r += 1;
        }
        proof {
            let target = self@.times(rhs@);
            Grid::lemma_tabulate(
                self@.rows,
                rhs@.cols,
                |r: int, c: int| dot_spec(self@.row(r), rhs@.col(c)),
            );
            assert forall|i: int| 0 <= i < array@.len() implies array@[i] == target.cells[i] by {
                lemma_cell_position(self@.rows, 1, i, 0);
                assert(target.at(i, 0) == dot_spec(self@.row(i), rhs@.col(0)));
            }
            assert(array@ =~= target.cells);
        }
        Matrix { rows: self.rows, cols: 1, array }
    }

    /// A column times a row: the outer product, one multiplication for each
    /// cell and no addition.
    fn mul_col_row(&self, rhs: &Matrix<T>) -> (out: Matrix<T>)
        requires
            self.wf(),
            rhs.wf(),
            T::obeys_mul_spec(),
            self@.can_times(rhs@),
            self@.cols == 1,
            self@.rows > 1,
            rhs@.cols > 1,
        ensures
            out.wf(),
            out@ == self@.times(rhs@),
    {
        let ghost target = self@.times(rhs@);
        proof {
            Grid::lemma_tabulate(
                self@.rows,
                rhs@.cols,
                |r: int, c: int| self@.cells[r].mul_spec(rhs@.cells[c]),
            );
        }
        let mut array: Vec<T> = Vec::new();
        let mut r: usize = 0;
        while r < self.rows
            invariant
                self.wf(),
                rhs.wf(),
                T::obeys_mul_spec(),
                self@.can_times(rhs@),
                self@.cols == 1,
                self@.rows > 1,
                rhs@.cols > 1,
                target == self@.times(rhs@),
                target.wf(),
                r <= self.rows,
                array@.len() == r * rhs.cols,
                forall|i: int| 0 <= i < array@.len() ==> #[trigger] array@[i] == target.cells[i],
            decreases self.rows - r,
        {
            let x: T = self.array[r];
            let mut c: usize = 0;
            while c < rhs.cols
                invariant
                    self.wf(),
                    rhs.wf(),
                    T::obeys_mul_spec(),
                    self@.can_times(rhs@),
                    self@.cols == 1,
                    self@.rows > 1,
                    rhs@.cols > 1,
                    target == self@.times(rhs@),
                    target.wf(),
                    r < self.rows,
                    x == self@.cells[r as int],
                    c <= rhs.cols,
                    array@.len() == r * rhs.cols + c,
                    forall|i: int|
                        0 <= i < array@.len() ==> #[trigger] array@[i] == target.cells[i],
                decreases rhs.cols - c,
            {
                proof {
                    lemma_cell_position(self@.rows, rhs@.cols, r as int, c as int);
                    assert(self@.cells[r as int].mul_req(rhs@.cells[c as int]));
                }
                array.push(x * rhs.array[c]);
                c += 1;
            }
            r += 1;
            assert(r * rhs.cols == (r - 1) * rhs.cols + rhs.cols) by (nonlinear_arith);
        }
        proof {
            assert(array@ =~= target.cells);
        }
        Matrix { rows: self.rows, cols: rhs.cols, array }
    }

    /// The general product: `rhs` is transposed once, and cell `(r, c)` is
    /// the dot product of row `r` of `self` and row `c` of that transpose.
    fn mul_general(&self, rhs: &Matrix<T>) -> (out: Matrix<T>)
        requires
            self.wf(),
            rhs.wf(),
            T::obeys_add_spec(),
            T::obeys_mul_spec(),
            self@.can_times(rhs@),
            self@.rows > 1,
            self@.cols > 1,
            rhs@.cols > 1,
        ensures
            out.wf(),
            out@ == self@.times(rhs@),
    {
        let flipped = rhs.transpose();
        let n: usize = self.cols;
        let ghost m: usize = self.array.len();
        let ghost fm: usize = flipped.array.len();
        let ghost target = self@.times(rhs@);
        proof {
            Grid::lemma_tabulate(
                self@.rows,
                rhs@.cols,
                |r: int, c: int| dot_spec(self@.row(r), rhs@.col(c)),
            );
            Grid::lemma_tabulate(rhs@.cols, rhs@.rows, |r: int, c: int| rhs@.at(c, r));
        }
        let mut array: Vec<T> = Vec::new();
        let mut r: usize = 0;
        while r < self.rows
            invariant
                self.wf(),
                rhs.wf(),
                flipped.wf(),
                flipped@ == rhs@.transposed(),
                T::obeys_add_spec(),
                T::obeys_mul_spec(),
                self@.can_times(rhs@),
                self@.rows > 1,
                self@.cols > 1,
                rhs@.cols > 1,
                target == self@.times(rhs@),
                target.wf(),
                n == self.cols,
                m == self.array@.len(),
                fm == flipped.array@.len(),
                r <= self.rows,
                array@.len() == r * rhs.cols,
                forall|i: int| 0 <= i < array@.len() ==> #[trigger] array@[i] == target.cells[i],
            decreases self.rows - r,
        {
            proof {
                lemma_row_range(self@.rows, self@.cols, r as int);
                assert(r * n + n <= m);
            }
            let row = slice_subrange(self.array.as_slice(), r * n, r * n + n);
            assert(row@ == self@.row(r as int));
            let mut c: usize = 0;
            while c < rhs.cols
                invariant
                    self.wf(),
                    rhs.wf(),
                    flipped.wf(),
                    flipped@ == rhs@.transposed(),
                    T::obeys_add_spec(),
                    T::obeys_mul_spec(),
                    self@.can_times(rhs@),
                    self@.rows > 1,
                    self@.cols > 1,
                    rhs@.cols > 1,
                    target == self@.times(rhs@),
                    target.wf(),
                    n == self.cols,
                    fm == flipped.array@.len(),
                    r < self.rows,
                    row@ == self@.row(r as int),
                    c <= rhs.cols,
                    array@.len() == r * rhs.cols + c,
                    forall|i: int|
                        0 <= i < array@.len() ==> #[trigger] array@[i] == target.cells[i],
                decreases rhs.cols - c,
            {
                proof {
                    rhs@.lemma_transposed_row(c as int);
                    lemma_row_range(flipped@.rows, flipped@.cols, c as int);
                    lemma_cell_position(self@.rows, rhs@.cols, r as int, c as int);
                    assert(dot_req(self@.row(r as int), rhs@.col(c as int)));
                    assert(target.at(r as int, c as int) == dot_spec(
                        self@.row(r as int),
                        rhs@.col(c as int),
                    ));
                    assert(c * n + n <= fm);
                }
                let column = slice_subrange(flipped.array.as_slice(), c * n, c * n + n);
                assert(column@ == flipped@.row(c as int));
                array.push(dot(row, column));
                c += 1;
            }
            r += 1;
            assert(r * rhs.cols == (r - 1) * rhs.cols + rhs.cols) by (nonlinear_arith);
        }
        proof {
            assert(array@ =~= target.cells);
        }
        Matrix { rows: self.rows, cols: rhs.cols, array }
    }
}

impl<'a, 'b, T: Copy + Zero + Add<Output = T> + Mul<Output = T>> MulSpecImpl<&'b Matrix<T>> for &'a Matrix<T> {
    /// What the operator returns is stated by its own `ensures`, not by
    /// `mul_spec`.
    open spec fn obeys_mul_spec() -> bool {
        false
    }

    /// What the operator asks of its operands.
    open spec fn mul_req(self, rhs: &'b Matrix<T>) -> bool {
        self.wf() && rhs.wf() && T::obeys_add_spec() && T::obeys_mul_spec() && self@.can_times(rhs@)
    }

    /// Left open: see `obeys_mul_spec`.
    open spec fn mul_spec(self, rhs: &'b Matrix<T>) -> Matrix<T> {
        arbitrary()
    }
}

impl<'a, 'b, T: Copy + Zero + Add<Output = T> + Mul<Output = T>> Mul<&'b Matrix<T>> for &'a Matrix<T> {
    type Output = Matrix<T>;

    /// The matrix product.
    fn mul(self, rhs: &'b Matrix<T>) -> (out: Matrix<T>)
        ensures
            out.wf(),
            out@ == self@.times(rhs@),
    {
        Matrix::times(self, rhs)
    }
}

impl<'b, T: Copy + Zero + Add<Output = T> + Mul<Output = T>> MulSpecImpl<&'b Matrix<T>> for Matrix<T> {
    /// What the operator returns is stated by its own `ensures`, not by
    /// `mul_spec`.
    open spec fn obeys_mul_spec() -> bool {
        false
    }

    /// What the operator asks of its operands.
    open spec fn mul_req(self, rhs: &'b Matrix<T>) -> bool {
        self.wf() && rhs.wf() && T::obeys_add_spec() && T::obeys_mul_spec() && self@.can_times(rhs@)
    }

    /// Left open: see `obeys_mul_spec`.
    open spec fn mul_spec(self, rhs: &'b Matrix<T>) -> Matrix<T> {
        arbitrary()
    }
}

impl<'b, T: Copy + Zero + Add<Output = T> + Mul<Output = T>> Mul<&'b Matrix<T>> for Matrix<T> {
    type Output = Matrix<T>;

    /// The matrix product.
    fn mul(self, rhs: &'b Matrix<T>) -> (out: Matrix<T>)
        ensures
            out.wf(),
            out@ == self@.times(rhs@),
    {
        Matrix::times(&self, rhs)
    }
}

impl<'a, T: Copy + Zero + Add<Output = T> + Mul<Output = T>> MulSpecImpl<Matrix<T>> for &'a Matrix<T> {
    /// What the operator returns is stated by its own `ensures`, not by
    /// `mul_spec`.
    open spec fn obeys_mul_spec() -> bool {
        false
    }

    /// What the operator asks of its operands.
    open spec fn mul_req(self, rhs: Matrix<T>) -> bool {
        self.wf() && rhs.wf() && T::obeys_add_spec() && T::obeys_mul_spec() && self@.can_times(rhs@)
    }

    /// Left open: see `obeys_mul_spec`.
    open spec fn mul_spec(self, rhs: Matrix<T>) -> Matrix<T> {
        arbitrary()
    }
}

impl<'a, T: Copy + Zero + Add<Output = T> + Mul<Output = T>> Mul<Matrix<T>> for &'a Matrix<T> {
    type Output = Matrix<T>;

    /// The matrix product.
    fn mul(self, rhs: Matrix<T>) -> (out: Matrix<T>)
        ensures
            out.wf(),
            out@ == self@.times(rhs@),
    {
        Matrix::times(self, &rhs)
    }
}

impl<T: Copy + Zero + Add<Output = T> + Mul<Output = T>> MulSpecImpl<Matrix<T>> for Matrix<T> {
    /// What the operator returns is stated by its own `ensures`, not by
    /// `mul_spec`.
    open spec fn obeys_mul_spec() -> bool {
        false
    }

    /// What the operator asks of its operands.
    open spec fn mul_req(self, rhs: Matrix<T>) -> bool {
        self.wf() && rhs.wf() && T::obeys_add_spec() && T::obeys_mul_spec() && self@.can_times(rhs@)
    }

    /// Left open: see `obeys_mul_spec`.
    open spec fn mul_spec(self, rhs: Matrix<T>) -> Matrix<T> {
        arbitrary()
    }
}

impl<T: Copy + Zero + Add<Output = T> + Mul<Output = T>> Mul<Matrix<T>> for Matrix<T> {
    type Output = Matrix<T>;

    /// The matrix product.
    fn mul(self, rhs: Matrix<T>) -> (out: Matrix<T>)
        ensures
            out.wf(),
            out@ == self@.times(rhs@),
    {
        Matrix::times(&self, &rhs)
    }
}

} // verus!
