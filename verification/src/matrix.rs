//! The dense matrix and its shape operations.

use vstd::prelude::*;
use vstd::std_specs::cmp::PartialEqSpec;
use vstd::std_specs::cmp::PartialEqSpecImpl;
use crate::grid::Grid;
use crate::grid::lemma_cell_position;
use crate::grid::lemma_position_cell;
use crate::grid::lemma_row_range;

verus! {

/// A dense matrix: `rows * cols` values in row-major order.
#[derive(Clone, Debug)]
pub struct Matrix<T> {
    pub(crate) rows: usize,
    pub(crate) cols: usize,
    pub(crate) array: Vec<T>,
}

/// The direction of a reduction or a concatenation.
#[derive(Clone, Copy, Debug, PartialEq, Eq, Structural)]
pub enum Axis {
    ROW,
    COLUMN,
}

impl<T> View for Matrix<T> {
    type V = Grid<T>;

    open(crate) spec fn view(&self) -> Grid<T> {
        Grid { rows: self.rows as nat, cols: self.cols as nat, cells: self.array@ }
    }
}

impl<T> Matrix<T> {
    /// The matrix has at least one row and one column, and its buffer holds
    /// `rows * cols` values.
    pub open spec fn wf(&self) -> bool {
        self@.wf()
    }

    /// A matrix of the given shape over `array`, read in row-major order.
    pub fn from_vec(array: Vec<T>, rows: usize, cols: usize) -> (out: Self)
        requires
            rows != 0,
            cols != 0,
            array@.len() == rows * cols,
        ensures
            out.wf(),
            out@ == (Grid { rows: rows as nat, cols: cols as nat, cells: array@ }),
    {
        Matrix { rows, cols, array }
    }

    /// A matrix of one row over `array`.
    pub fn from_vec_row(array: Vec<T>) -> (out: Self)
        requires
            array@.len() != 0,
        ensures
            out.wf(),
            out@ == (Grid { rows: 1, cols: array@.len(), cells: array@ }),
    {
        let cols: usize = array.len();
        Matrix::from_vec(array, 1, cols)
    }

    /// A matrix of one column over `array`.
    pub fn from_vec_col(array: Vec<T>) -> (out: Self)
        requires
            array@.len() != 0,
        ensures
            out.wf(),
            out@ == (Grid { rows: array@.len(), cols: 1, cells: array@ }),
    {
        let rows: usize = array.len();
        Matrix::from_vec(array, rows, 1)
    }

    /// The cells in row-major order.
    pub fn to_slice(&self) -> (cells: &[T])
        ensures
            cells@ == self@.cells,
    {
        self.array.as_slice()
    }

    /// A reference to the cell in row `row` and column `col`, or `None` when
    /// the position lies outside the matrix.
    pub fn get_ref(&self, row: usize, col: usize) -> (out: Option<&T>)
        requires
            self.wf(),
        ensures
            out == if row < self@.rows && col < self@.cols {
                Some(&self@.at(row as int, col as int))
            } else {
                None
            },
    {
        if self.rows <= row || self.cols <= col {
            return None;
        }
        let ghost n: usize = self.array.len();
        proof {
            lemma_cell_position(self@.rows, self@.cols, row as int, col as int);
            assert(0 <= row * self.cols + col < n);
        }
        Some(&self.array[row * self.cols + col])
    }

    /// A mutable reference to the cell in row `row` and column `col`, or
    /// `None` when the position lies outside the matrix. Writing through the
    /// reference changes that cell and no other.
    pub fn get_mut(&mut self, row: usize, col: usize) -> (out: Option<&mut T>)
        requires
            old(self).wf(),
        ensures
            match out {
                Some(cell) => {
                    &&& row < old(self)@.rows
                    &&& col < old(self)@.cols
                    &&& *cell == old(self)@.at(row as int, col as int)
                    &&& final(self)@ == old(self)@.with_cell(row as int, col as int, *final(cell))
                },
                None => {
                    &&& !(row < old(self)@.rows && col < old(self)@.cols)
                    &&& final(self)@ == old(self)@
                },
            },
            final(self).wf(),
    {
        if self.rows <= row || self.cols <= col {
            return None;
        }
        let ghost n: usize = self.array.len();
        proof {
            lemma_cell_position(self@.rows, self@.cols, row as int, col as int);
            assert(0 <= row * self.cols + col < n);
        }
        Some(&mut self.array[row * self.cols + col])
    }

    /// Gives the matrix another shape with the same number of cells. The
    /// buffer is left as it is.
    pub fn reshape(&mut self, rows: usize, cols: usize)
        requires
            old(self).wf(),
            rows * cols == old(self)@.rows * old(self)@.cols,
        ensures
            final(self).wf(),
            final(self)@ == old(self)@.reshaped(rows as nat, cols as nat),
    {
        proof {
            let r = self@.rows;
            let c = self@.cols;
            assert(rows > 0 && cols > 0) by (nonlinear_arith)
                requires
                    rows * cols == r * c,
                    r > 0,
                    c > 0,
            ;
        }
        self.rows = rows;
        self.cols = cols;
    }

    /// Tells whether the matrix is a single value: one row and one column.
    pub fn is_scalar(&self) -> (b: bool)
        ensures
            b == self@.is_scalar(),
    {
        self.rows == 1 && self.cols == 1
    }

    /// The number of rows.
    pub fn rows(&self) -> (n: usize)
        ensures
            n == self@.rows,
    {
        self.rows
    }

    /// The number of columns.
    pub fn cols(&self) -> (n: usize)
        ensures
            n == self@.cols,
    {
        self.cols
    }
}

impl<T: PartialEq> PartialEqSpecImpl for Matrix<T> {
    open spec fn obeys_eq_spec() -> bool {
        T::obeys_eq_spec()
    }

    /// Two matrices are equal when they have one shape and the element
    /// type's own equality holds in every position.
    open spec fn eq_spec(&self, other: &Matrix<T>) -> bool {
        &&& self@.rows == other@.rows
        &&& self@.cols == other@.cols
        &&& self@.cells.len() == other@.cells.len()
        &&& forall|i: int|
            0 <= i < self@.cells.len() ==> (#[trigger] self@.cells[i]).eq_spec(&other@.cells[i])
    }
}

impl<T: PartialEq> PartialEq for Matrix<T> {
    fn eq(&self, other: &Matrix<T>) -> (equal: bool) {
        if self.rows != other.rows || self.cols != other.cols {
            return false;
        }
        let n: usize = self.array.len();
        if n != other.array.len() {
            return false;
        }
        let mut k: usize = 0;
        while k < n
            invariant
                n == self.array@.len(),
                n == other.array@.len(),
                k <= n,
                T::obeys_eq_spec() ==> forall|i: int|
                    0 <= i < k ==> (#[trigger] self.array@[i]).eq_spec(&other.array@[i]),
            decreases n - k,
        {
            if !(self.array[k] == other.array[k]) {
                return false;
            }
            k += 1;
        }
        true
    }
}

impl<T: Eq> Eq for Matrix<T> {

}

/// A vector holding the same values as `source`, in the same order.
pub(crate) fn copy_cells<T: Copy>(source: &Vec<T>) -> (out: Vec<T>)
    ensures
        out@ == source@,
{
    let n: usize = source.len();
    let mut out: Vec<T> = Vec::with_capacity(n);
    let mut k: usize = 0;
    while k < n
        invariant
            n == source@.len(),
            k <= n,
            out@ == source@.subrange(0, k as int),
        decreases n - k,
    {
        out.push(source[k]);
        k += 1;
        assert(out@ =~= source@.subrange(0, k as int));
    }
    assert(out@ =~= source@);
    out
}

impl<T: Copy> Matrix<T> {
    /// A matrix of `R` rows and `C` columns from its rows.
    pub fn new<const R: usize, const C: usize>(data: [[T; C]; R]) -> (out: Self)
        requires
            R != 0,
            C != 0,
        ensures
            out.wf(),
            out@ == Grid::tabulate(R as nat, C as nat, |r: int, c: int| data@[r]@[c]),
    {
        let ghost target = Grid::tabulate(R as nat, C as nat, |r: int, c: int| data@[r]@[c]);
        proof {
            Grid::lemma_tabulate(R as nat, C as nat, |r: int, c: int| data@[r]@[c]);
        }
        let mut array: Vec<T> = Vec::new();
        let mut r: usize = 0;
        while r < R
            invariant
                target == Grid::tabulate(R as nat, C as nat, |r: int, c: int| data@[r]@[c]),
                target.wf(),
                target.rows == R,
                target.cols == C,
                r <= R,
                array@.len() == r * C,
                forall|i: int| 0 <= i < array@.len() ==> #[trigger] array@[i] == target.cells[i],
            decreases R - r,
        {
            let mut c: usize = 0;
            while c < C
                invariant
                    target == Grid::tabulate(R as nat, C as nat, |r: int, c: int| data@[r]@[c]),
                    target.wf(),
                    target.rows == R,
                    target.cols == C,
                    r < R,
                    c <= C,
                    array@.len() == r * C + c,
                    forall|i: int|
                        0 <= i < array@.len() ==> #[trigger] array@[i] == target.cells[i],
                decreases C - c,
            {
                proof {
                    lemma_cell_position(R as nat, C as nat, r as int, c as int);
                    assert(target.at(r as int, c as int) == data@[r as int]@[c as int]);
                }
                array.push(data[r][c]);
                c += 1;
            }
            r += 1;
            assert(r * C == (r - 1) * C + C) by (nonlinear_arith);
        }
        proof {
            assert(array@ =~= target.cells);
        }
        Matrix { rows: R, cols: C, array }
    }

    /// A matrix of one row holding `data`.
    pub fn new_row_vector<const C: usize>(data: [T; C]) -> (out: Self)
        requires
            C != 0,
        ensures
            out.wf(),
            out@ == (Grid { rows: 1, cols: C as nat, cells: data@ }),
    {
        let mut array: Vec<T> = Vec::with_capacity(C);
        let mut c: usize = 0;
        while c < C
            invariant
                c <= C,
                array@ == data@.subrange(0, c as int),
            decreases C - c,
        {
            array.push(data[c]);
            c += 1;
            assert(array@ =~= data@.subrange(0, c as int));
        }
        assert(array@ =~= data@);
        Matrix { rows: 1, cols: C, array }
    }

    /// A matrix of one column holding `data`.
    pub fn new_col_vector<const R: usize>(data: [T; R]) -> (out: Self)
        requires
            R != 0,
        ensures
            out.wf(),
            out@ == (Grid { rows: R as nat, cols: 1, cells: data@ }),
    {
        let mut array: Vec<T> = Vec::with_capacity(R);
        let mut r: usize = 0;
        while r < R
            invariant
                r <= R,
                array@ == data@.subrange(0, r as int),
            decreases R - r,
        {
            array.push(data[r]);
            r += 1;
            assert(array@ =~= data@.subrange(0, r as int));
        }
        assert(array@ =~= data@);
        Matrix { rows: R, cols: 1, array }
    }

    /// A matrix of the given shape from nested vectors, read one after the
    /// other. Only the total number of values counts: the inner vectors need
    /// not have `cols` values each.
    pub fn from_vec2d(array: Vec<Vec<T>>, rows: usize, cols: usize) -> (out: Self)
        requires
            rows != 0,
            cols != 0,
            array@.map_values(|v: Vec<T>| v@).flatten().len() == rows * cols,
        ensures
            out.wf(),
            out@ == (Grid {
                rows: rows as nat,
                cols: cols as nat,
                cells: array@.map_values(|v: Vec<T>| v@).flatten(),
            }),
    {
        let ghost nested = array@.map_values(|v: Vec<T>| v@);
        let mut flat: Vec<T> = Vec::new();
        let mut i: usize = 0;
        while i < array.len()
            invariant
                nested == array@.map_values(|v: Vec<T>| v@),
                i <= array@.len(),
                flat@ == nested.subrange(0, i as int).flatten(),
            decreases array@.len() - i,
        {
            let inner: &Vec<T> = &array[i];
            let mut j: usize = 0;
            while j < inner.len()
                invariant
                    nested == array@.map_values(|v: Vec<T>| v@),
                    i < array@.len(),
                    inner@ == nested[i as int],
                    j <= inner@.len(),
                    flat@ == nested.subrange(0, i as int).flatten() + inner@.subrange(0, j as int),
                decreases inner@.len() - j,
            {
                flat.push(inner[j]);
                j += 1;
                assert(flat@ =~= nested.subrange(0, i as int).flatten() + inner@.subrange(
                    0,
                    j as int,
                ));
            }
            proof {
                assert(inner@.subrange(0, j as int) =~= inner@);
                nested.subrange(0, i as int).lemma_flatten_push(inner@);
                assert(nested.subrange(0, i as int).push(inner@) =~= nested.subrange(
                    0,
                    i as int + 1,
                ));
            }
            i += 1;
        }
        proof {
            assert(nested.subrange(0, i as int) =~= nested);
        }
        Matrix { rows, cols, array: flat }
    }

    /// A matrix from a slice of rows of `C` values each.
    pub fn from_slice<const C: usize>(data: &[[T; C]]) -> (out: Self)
        requires
            data@.len() != 0,
            C != 0,
        ensures
            out.wf(),
            out@ == Grid::tabulate(data@.len(), C as nat, |r: int, c: int| data@[r]@[c]),
    {
        let rows: usize = data.len();
        let ghost target = Grid::tabulate(rows as nat, C as nat, |r: int, c: int| data@[r]@[c]);
        proof {
            Grid::lemma_tabulate(rows as nat, C as nat, |r: int, c: int| data@[r]@[c]);
        }
        let mut array: Vec<T> = Vec::new();
        let mut r: usize = 0;
        while r < rows
            invariant
                rows == data@.len(),
                target == Grid::tabulate(rows as nat, C as nat, |r: int, c: int| data@[r]@[c]),
                target.wf(),
                target.rows == rows,
                target.cols == C,
                r <= rows,
                array@.len() == r * C,
                forall|i: int| 0 <= i < array@.len() ==> #[trigger] array@[i] == target.cells[i],
            decreases rows - r,
        {
            let mut c: usize = 0;
            while c < C
                invariant
                    rows == data@.len(),
                    target == Grid::tabulate(rows as nat, C as nat, |r: int, c: int| data@[r]@[c]),
                    target.wf(),
                    target.rows == rows,
                    target.cols == C,
                    r < rows,
                    c <= C,
                    array@.len() == r * C + c,
                    forall|i: int|
                        0 <= i < array@.len() ==> #[trigger] array@[i] == target.cells[i],
                decreases C - c,
            {
                proof {
                    lemma_cell_position(rows as nat, C as nat, r as int, c as int);
                    assert(target.at(r as int, c as int) == data@[r as int]@[c as int]);
                }
                array.push(data[r][c]);
                c += 1;
            }
            r += 1;
            assert(r * C == (r - 1) * C + C) by (nonlinear_arith);
        }
        proof {
            assert(array@ =~= target.cells);
        }
        Matrix { rows, cols: C, array }
    }

    /// A copy of the matrix under another shape with the same number of
    /// cells.
    pub fn as_shape(&self, rows: usize, cols: usize) -> (out: Self)
        requires
            self.wf(),
            rows * cols == self@.rows * self@.cols,
        ensures
            out.wf(),
            out@ == self@.reshaped(rows as nat, cols as nat),
    {
        proof {
            let r = self@.rows;
            let c = self@.cols;
            assert(rows > 0 && cols > 0) by (nonlinear_arith)
                requires
                    rows * cols == r * c,
                    r > 0,
                    c > 0,
            ;
        }
        Matrix { rows, cols, array: copy_cells(&self.array) }
    }

    /// The value in row `r` and column `c`, or `None` when the position lies
    /// outside the matrix.
    pub fn get(&self, r: usize, c: usize) -> (out: Option<T>)
        requires
            self.wf(),
        ensures
            out == if r < self@.rows && c < self@.cols {
                Some(self@.at(r as int, c as int))
            } else {
                None
            },
    {
        if self.rows <= r || self.cols <= c {
            return None;
        }
        let n: usize = self.array.len();
        proof {
            lemma_cell_position(self@.rows, self@.cols, r as int, c as int);
            assert(0 <= r * self.cols + c < n);
        }
        Some(self.array[r * self.cols + c])
    }

    /// The single value of a matrix of one row and one column.
    pub fn as_scalar(&self) -> (out: Option<T>)
        requires
            self.wf(),
            self@.is_scalar(),
        ensures
            out == Some(self@.cells[0]),
    {
        Some(self.array[0])
    }

    /// The two matrices side by side.
    ///
    /// Along `Axis::ROW` the rows of `rhs` follow the rows of `self`, and the
    /// two must have as many columns. Along `Axis::COLUMN` each row of `rhs`
    /// continues the same row of `self`, and the two must have as many rows.
    pub fn concat(&self, rhs: &Matrix<T>, ax: Axis) -> (out: Self)
        requires
            self.wf(),
            rhs.wf(),
            match ax {
                Axis::ROW => self@.cols == rhs@.cols,
                Axis::COLUMN => self@.rows == rhs@.rows,
            },
        ensures
            out.wf(),
            out@ == match ax {
                Axis::ROW => self@.stacked(rhs@),
                Axis::COLUMN => self@.joined(rhs@),
            },
    {
        match ax {
            Axis::ROW => self.concat_rows(rhs),
            Axis::COLUMN => self.concat_cols(rhs),
        }
    }

    /// The rows of `self` followed by the rows of `rhs`.
    fn concat_rows(&self, rhs: &Matrix<T>) -> (out: Self)
        requires
            self.wf(),
            rhs.wf(),
            self@.cols == rhs@.cols,
        ensures
            out.wf(),
            out@ == self@.stacked(rhs@),
    {
        let mut array: Vec<T> = copy_cells(&self.array);
        let n: usize = rhs.array.len();
        let mut k: usize = 0;
        while k < n
            invariant
                n == rhs.array@.len(),
                k <= n,
                array@ == self.array@ + rhs.array@.subrange(0, k as int),
            decreases n - k,
        {
            array.push(rhs.array[k]);
            k += 1;
            assert(array@ =~= self.array@ + rhs.array@.subrange(0, k as int));
        }
        assert(array@ =~= self.array@ + rhs.array@);
        let ghost total: usize = array.len();
        proof {
            let a = self.rows as int;
            let b = rhs.rows as int;
            let c = self.cols as int;
            assert((a + b) * c == a * c + b * c && a + b <= (a + b) * c) by (nonlinear_arith)
                requires
                    a > 0,
                    b > 0,
                    c > 0,
            ;
        }
        Matrix { rows: self.rows + rhs.rows, cols: self.cols, array }
    }

    /// Each row of `self` followed by the same row of `rhs`.
    fn concat_cols(&self, rhs: &Matrix<T>) -> (out: Self)
        requires
            self.wf(),
            rhs.wf(),
            self@.rows == rhs@.rows,
        ensures
            out.wf(),
            out@ == self@.joined(rhs@),
    {
        let ghost target = self@.joined(rhs@);
        let ghost width = self@.cols + rhs@.cols;
        proof {
            self@.lemma_joined(rhs@);
        }
        let ghost n: usize = self.array.len();
        let ghost m: usize = rhs.array.len();
        let mut array: Vec<T> = Vec::new();
        let mut r: usize = 0;
        while r < self.rows
            invariant
                self.wf(),
                rhs.wf(),
                self@.rows == rhs@.rows,
                width == self@.cols + rhs@.cols,
                target == self@.joined(rhs@),
                target.wf(),
                target.cols == width,
                n == self.array@.len(),
                m == rhs.array@.len(),
                r <= self.rows,
                array@.len() == r * width,
                forall|i: int| 0 <= i < array@.len() ==> #[trigger] array@[i] == target.cells[i],
            decreases self.rows - r,
        {
            let mut c: usize = 0;
            while c < self.cols
                invariant
                    self.wf(),
                    rhs.wf(),
                    self@.rows == rhs@.rows,
                    width == self@.cols + rhs@.cols,
                    target == self@.joined(rhs@),
                    target.wf(),
                    target.cols == width,
                    n == self.array@.len(),
                    r < self.rows,
                    c <= self.cols,
                    array@.len() == r * width + c,
                    forall|i: int|
                        0 <= i < array@.len() ==> #[trigger] array@[i] == target.cells[i],
                decreases self.cols - c,
            {
                proof {
                    self@.lemma_joined(rhs@);
                    lemma_cell_position(self@.rows, self@.cols, r as int, c as int);
                    lemma_cell_position(self@.rows, width, r as int, c as int);
                    assert(target.at(r as int, c as int) == self@.at(r as int, c as int));
                    assert(0 <= r * self.cols + c < n);
                }
                array.push(self.array[r * self.cols + c]);
                c += 1;
            }
            let mut d: usize = 0;
            while d < rhs.cols
                invariant
                    self.wf(),
                    rhs.wf(),
                    self@.rows == rhs@.rows,
                    width == self@.cols + rhs@.cols,
                    target == self@.joined(rhs@),
                    target.wf(),
                    target.cols == width,
                    m == rhs.array@.len(),
                    r < self.rows,
                    d <= rhs.cols,
                    array@.len() == r * width + self.cols + d,
                    forall|i: int|
                        0 <= i < array@.len() ==> #[trigger] array@[i] == target.cells[i],
                decreases rhs.cols - d,
            {
                proof {
                    self@.lemma_joined(rhs@);
                    lemma_cell_position(rhs@.rows, rhs@.cols, r as int, d as int);
                    lemma_cell_position(self@.rows, width, r as int, self.cols + d);
                    assert(target.at(r as int, self.cols + d) == rhs@.at(r as int, d as int));
                    assert(0 <= r * rhs.cols + d < m);
                }
                array.push(rhs.array[r * rhs.cols + d]);
                d += 1;
            }
            r += 1;
            assert(r * width == (r - 1) * width + width) by (nonlinear_arith);
        }
        proof {
            assert(array@ =~= target.cells);
        }
        let ghost total: usize = array.len();
        proof {
            let a = self.rows as int;
            let w = width as int;
            assert(w <= a * w) by (nonlinear_arith)
                requires
                    a > 0,
                    w > 0,
            ;
        }
        Matrix { rows: self.rows, cols: self.cols + rhs.cols, array }
    }

    /// The transpose: cell `(r, c)` of the result is cell `(c, r)` of `self`.
    ///
    /// A matrix with a single row or a single column keeps its buffer and
    /// only exchanges its two dimensions; any other matrix is gathered column
    /// by column into a new buffer.
    pub fn transpose(&self) -> (out: Self)
        requires
            self.wf(),
        ensures
            out.wf(),
            out@ == self@.transposed(),
    {
        proof {
            self@.lemma_transposed();
        }
        if self.rows == 1 || self.cols == 1 {
            let out = Matrix { rows: self.cols, cols: self.rows, array: copy_cells(&self.array) };
            proof {
                let t = self@.transposed();
                assert(self@.rows * self@.cols == self@.cols * self@.rows) by (nonlinear_arith);
                assert forall|i: int| 0 <= i < self@.cells.len() implies self@.cells[i]
                    == t.cells[i] by {
                    lemma_position_cell(t.rows, t.cols, i);
                    let r = i / (t.cols as int);
                    let c = i % (t.cols as int);
                    assert(t.cells[i] == t.at(r, c));
                    assert(t.at(r, c) == self@.at(c, r));
                    let w = t.cols as int;
                    if self.rows == 1 {
                        assert(c == 0);
                        assert(r == i) by (nonlinear_arith)
                            requires
                                w == 1,
                                c == 0,
                                i == r * w + c,
                        ;
                        assert(c * self@.cols + r == i) by (nonlinear_arith)
                            requires
                                c == 0,
                                r == i,
                        ;
                    } else {
                        assert(r == 0);
                        assert(c == i) by (nonlinear_arith)
                            requires
                                r == 0,
                                i == r * w + c,
                        ;
                        assert(c * self@.cols + r == i) by (nonlinear_arith)
                            requires
                                r == 0,
                                c == i,
                                self@.cols == 1,
                        ;
                    }
                }
                assert(out@.cells =~= t.cells);
            }
            return out;
        }
        let n: usize = self.array.len();
        let mut array: Vec<T> = Vec::with_capacity(n);
        let mut c: usize = 0;
        while c < self.cols
            invariant
                self.wf(),
                n == self.array@.len(),
                c <= self.cols,
                array@.len() == c * self.rows,
                forall|i: int|
                    0 <= i < array@.len() ==> #[trigger] array@[i] == self@.transposed().cells[i],
            decreases self.cols - c,
        {
            let mut r: usize = 0;
            while r < self.rows
                invariant
                    self.wf(),
                    n == self.array@.len(),
                    c < self.cols,
                    r <= self.rows,
                    array@.len() == c * self.rows + r,
                    forall|i: int|
                        0 <= i < array@.len() ==> #[trigger] array@[i]
                            == self@.transposed().cells[i],
                decreases self.rows - r,
            {
                proof {
                    lemma_cell_position(self@.rows, self@.cols, r as int, c as int);
                    lemma_cell_position(self@.cols, self@.rows, c as int, r as int);
                    assert(0 <= r * self.cols + c < self.array@.len());
                }
                array.push(self.array[r * self.cols + c]);
                r += 1;
            }
            c += 1;
            assert(c * self.rows == (c - 1) * self.rows + self.rows) by (nonlinear_arith);
        }
        proof {
            assert(self.cols * self.rows == self.rows * self.cols) by (nonlinear_arith);
            assert(array@ =~= self@.transposed().cells);
        }
        Matrix { rows: self.cols, cols: self.rows, array }
    }
}

} // verus!
