//! Matrices built from the identities of the element type: all zeros, all
//! ones, the identity matrix and the diagonal forms.

use vstd::prelude::*;
use crate::grid::Grid;
use crate::grid::lemma_cell_position;
use crate::grid::lemma_position_cell;
use crate::grid::lemma_row_range;
use crate::identities::One;
use crate::identities::Zero;
use crate::matrix::Matrix;

verus! {

impl<T: Zero> Grid<T> {
    /// The grid of the given shape with the additive identity in every cell.
    pub open spec fn zeros(rows: nat, cols: nat) -> Grid<T> {
        Grid::filled(rows, cols, T::zero_spec())
    }

    /// The square grid with the values of `self`, taken in buffer order,
    /// along the diagonal and the additive identity elsewhere.
    pub open spec fn diagonal(self) -> Grid<T> {
        Grid::tabulate(
            self.cells.len(),
            self.cells.len(),
            |r: int, c: int|
                if r == c {
                    self.cells[r]
                } else {
                    T::zero_spec()
                },
        )
    }

    /// The grid of `rows` rows and `rows * cols` columns that holds row `r`
    /// of `self` in its row `r`, from column `r * cols` on, and the additive
    /// identity elsewhere.
    pub open spec fn diagonal_rows(self) -> Grid<T> {
        Grid::tabulate(
            self.rows,
            self.rows * self.cols,
            |r: int, c: int|
                if r * self.cols <= c < r * self.cols + self.cols {
                    self.at(r, c - r * self.cols)
                } else {
                    T::zero_spec()
                },
        )
    }

    /// The grid of `rows * cols` rows and `cols` columns that holds column
    /// `c` of `self` in its column `c`, from row `c * rows` on, and the
    /// additive identity elsewhere.
    pub open spec fn diagonal_cols(self) -> Grid<T> {
        self.transposed().diagonal_rows().transposed()
    }
}

impl<T: One> Grid<T> {
    /// The grid of the given shape with the multiplicative identity in every
    /// cell.
    pub open spec fn ones(rows: nat, cols: nat) -> Grid<T> {
        Grid::filled(rows, cols, T::one_spec())
    }
}

impl<T: Zero + One> Grid<T> {
    /// The identity grid: the multiplicative identity along the diagonal and
    /// the additive identity elsewhere.
    pub open spec fn identity(dim: nat) -> Grid<T> {
        Grid::tabulate(
            dim,
            dim,
            |r: int, c: int|
                if r == c {
                    T::one_spec()
                } else {
                    T::zero_spec()
                },
        )
    }
}

impl<T: Copy> Matrix<T> {
    /// A matrix of the given shape with `x` in every cell.
    pub fn filled(rows: usize, cols: usize, x: T) -> (out: Self)
        requires
            rows != 0,
            cols != 0,
            rows * cols <= usize::MAX,
        ensures
            out.wf(),
            out@ == Grid::filled(rows as nat, cols as nat, x),
    {
        let n: usize = rows * cols;
        let mut array: Vec<T> = Vec::with_capacity(n);
        let mut k: usize = 0;
        while k < n
            invariant
                k <= n,
                array@.len() == k,
                forall|i: int| 0 <= i < k ==> #[trigger] array@[i] == x,
            decreases n - k,
        {
            array.push(x);
            k += 1;
        }
        proof {
            assert(array@ =~= Grid::filled(rows as nat, cols as nat, x).cells);
        }
        Matrix { rows, cols, array }
    }
}

impl<T: Zero + Copy> Matrix<T> {
    /// A matrix of the given shape with the additive identity in every cell.
    pub fn zero(rows: usize, cols: usize) -> (out: Self)
        requires
            rows != 0,
            cols != 0,
            rows * cols <= usize::MAX,
        ensures
            out.wf(),
            out@ == Grid::<T>::zeros(rows as nat, cols as nat),
    {
        Matrix::filled(rows, cols, T::zero())
    }

    /// A matrix of the shape of `mat` with the additive identity in every
    /// cell.
    pub fn zero_like<U>(mat: &Matrix<U>) -> (out: Self)
        requires
            mat.wf(),
        ensures
            out.wf(),
            out@ == Grid::<T>::zeros(mat@.rows, mat@.cols),
    {
        let ghost n: usize = mat.array.len();
        Matrix::zero(mat.rows, mat.cols)
    }

    /// The square matrix with the values of a vector along its diagonal.
    pub fn diag(&self) -> (out: Self)
        requires
            self.wf(),
            self@.rows == 1 || self@.cols == 1,
            self@.cells.len() * self@.cells.len() <= usize::MAX,
        ensures
            out.wf(),
            out@ == self@.diagonal(),
    {
        let size: usize = self.array.len();
        let ghost target = self@.diagonal();
        proof {
            Grid::lemma_tabulate(
                size as nat,
                size as nat,
                |r: int, c: int|
                    if r == c {
                        self@.cells[r]
                    } else {
                        T::zero_spec()
                    },
            );
        }
        let mut ret: Matrix<T> = Matrix::zero(size, size);
        let ghost total: usize = ret.array.len();
        proof {
            assert forall|r: int, c: int| 0 <= r < size && 0 <= c < size implies #[trigger] ret.array@[r
                * size + c] == T::zero_spec() by {
                lemma_cell_position(size as nat, size as nat, r, c);
            }
        }
        let mut d: usize = 0;
        while d < size
            invariant
                self.wf(),
                size == self.array@.len(),
                target == self@.diagonal(),
                target.wf(),
                target.rows == size,
                target.cols == size,
                ret.rows == size,
                ret.cols == size,
                total == ret.array@.len(),
                total == size * size,
                d <= size,
                forall|r: int, c: int|
                    0 <= r < size && 0 <= c < size ==> #[trigger] ret.array@[r * size + c] == if r
                        == c && r < d {
                        self@.cells[r]
                    } else {
                        T::zero_spec()
                    },
            decreases size - d,
        {
            proof {
                lemma_cell_position(size as nat, size as nat, d as int, d as int);
                assert(0 <= d * size + d < total);
            }
            let ghost before = ret.array@;
            ret.array.set(d * size + d, self.array[d]);
            proof {
                assert forall|r: int, c: int| 0 <= r < size && 0 <= c < size implies #[trigger] ret.array@[r
                    * size + c] == if r == c && r < d + 1 {
                    self@.cells[r]
                } else {
                    T::zero_spec()
                } by {
                    lemma_cell_position(size as nat, size as nat, r, c);
                    if r * size + c == d * size + d {
                        assert(r == d && c == d);
                    } else {
                        assert(ret.array@[r * size + c] == before[r * size + c]);
                    }
                }
            }
            d += 1;
        }
        proof {
            assert forall|i: int| 0 <= i < total implies ret.array@[i] == target.cells[i] by {
                lemma_position_cell(size as nat, size as nat, i);
                let r = i / (size as int);
                let c = i % (size as int);
                assert(ret.array@[r * size + c] == target.at(r, c));
            }
            assert(ret.array@ =~= target.cells);
        }
        ret
    }
}

impl<T: Zero> Grid<T> {
    /// The grid of the diagonal rows is well formed, and its cell `(r, c)`
    /// holds cell `(r, c - r * cols)` of `self` where `c` lies in the block of
    /// row `r`, and the additive identity elsewhere.
    pub proof fn lemma_diagonal_rows(self)
        requires
            self.wf(),
        ensures
            self.diagonal_rows().wf(),
            self.diagonal_rows().rows == self.rows,
            self.diagonal_rows().cols == self.rows * self.cols,
            forall|r: int, c: int|
                0 <= r < self.rows && 0 <= c < self.rows * self.cols
                    ==> #[trigger] self.diagonal_rows().at(r, c) == if r * self.cols <= c < r
                    * self.cols + self.cols {
                    self.at(r, c - r * self.cols)
                } else {
                    T::zero_spec()
                },
    {
        assert(self.rows * self.cols > 0) by (nonlinear_arith)
            requires
                self.rows > 0,
                self.cols > 0,
        ;
        Grid::lemma_tabulate(
            self.rows,
            self.rows * self.cols,
            |r: int, c: int|
                if r * self.cols <= c < r * self.cols + self.cols {
                    self.at(r, c - r * self.cols)
                } else {
                    T::zero_spec()
                },
        );
    }
}

impl<T: Zero + Copy> Matrix<T> {
    /// The matrix of `rows` rows and `rows * cols` columns that holds each
    /// row of `self` in the same row, moved right by the cells of the rows
    /// above it, and the additive identity elsewhere.
    pub fn diag_row(&self) -> (out: Self)
        requires
            self.wf(),
            self@.rows * (self@.rows * self@.cols) <= usize::MAX,
        ensures
            out.wf(),
            out@ == self@.diagonal_rows(),
    {
        let ghost target = self@.diagonal_rows();
        let n: usize = self.array.len();
        let width: usize = n;
        let cols: usize = self.cols;
        proof {
            self@.lemma_diagonal_rows();
            assert(n > 0);
        }
        let mut ret: Matrix<T> = Matrix::zero(self.rows, width);
        let ghost total: usize = ret.array.len();
        proof {
            assert forall|r: int, c: int| 0 <= r < self.rows && 0 <= c < width implies #[trigger] ret.array@[r
                * width + c] == T::zero_spec() by {
                lemma_cell_position(self@.rows, width as nat, r, c);
            }
        }
        let mut i: usize = 0;
        while i < self.rows
            invariant
                self.wf(),
                n == self.array@.len(),
                width == n,
                cols == self.cols,
                ret.rows == self.rows,
                ret.cols == width,
                total == ret.array@.len(),
                total == self.rows * width,
                i <= self.rows,
                forall|r: int, c: int|
                    0 <= r < self.rows && 0 <= c < width ==> #[trigger] ret.array@[r * width + c]
                        == if r < i && r * cols <= c < r * cols + cols {
                        self@.at(r, c - r * cols)
                    } else {
                        T::zero_spec()
                    },
            decreases self.rows - i,
        {
            proof {
                lemma_row_range(self@.rows, self@.cols, i as int);
                assert(0 <= i * cols && i * cols + cols <= n);
            }
            let base: usize = i * cols;
            let mut j: usize = 0;
            while j < cols
                invariant
                    self.wf(),
                    n == self.array@.len(),
                    width == n,
                    cols == self.cols,
                    ret.rows == self.rows,
                    ret.cols == width,
                    total == ret.array@.len(),
                    total == self.rows * width,
                    i < self.rows,
                    base == i * cols,
                    base + cols <= n,
                    j <= cols,
                    forall|r: int, c: int|
                        0 <= r < self.rows && 0 <= c < width ==> #[trigger] ret.array@[r * width
                            + c] == if (r < i && r * cols <= c < r * cols + cols) || (r == i && base
                            <= c < base + j) {
                            self@.at(r, c - r * cols)
                        } else {
                            T::zero_spec()
                        },
                decreases cols - j,
            {
                proof {
                    lemma_cell_position(self@.rows, width as nat, i as int, base + j);
                    assert(0 <= i * width + (base + j) < total);
                }
                let ghost before = ret.array@;
                let x: T = self.array[base + j];
                ret.array.set(i * width + (base + j), x);
                proof {
                    assert(x == self@.at(i as int, j as int));
                    assert forall|r: int, c: int|
                        0 <= r < self.rows && 0 <= c < width implies #[trigger] ret.array@[r * width
                        + c] == if (r < i && r * cols <= c < r * cols + cols) || (r == i && base
                        <= c < base + j + 1) {
                        self@.at(r, c - r * cols)
                    } else {
                        T::zero_spec()
                    } by {
                        lemma_cell_position(self@.rows, width as nat, r, c);
                        if r * width + c == i * width + (base + j) {
                            assert(r == i && c == base + j);
                        } else {
                            assert(ret.array@[r * width + c] == before[r * width + c]);
                        }
                    }
                }
                j += 1;
            }
            i += 1;
        }
        proof {
            assert forall|k: int| 0 <= k < total implies ret.array@[k] == target.cells[k] by {
                lemma_position_cell(self@.rows, width as nat, k);
                let r = k / (width as int);
                let c = k % (width as int);
                assert(ret.array@[r * width + c] == target.at(r, c));
            }
            assert(ret.array@ =~= target.cells);
        }
        ret
    }

    /// The matrix of `rows * cols` rows and `cols` columns that holds each
    /// column of `self` in the same column, moved down by the cells of the
    /// columns before it, and the additive identity elsewhere.
    pub fn diag_col(&self) -> (out: Self)
        requires
            self.wf(),
            self@.cols * (self@.cols * self@.rows) <= usize::MAX,
        ensures
            out.wf(),
            out@ == self@.diagonal_cols(),
    {
        let flipped = self.transpose();
        proof {
            self@.lemma_transposed();
        }
        flipped.diag_row().transpose()
    }
}

impl<T: One + Copy> Matrix<T> {
    /// A matrix of the given shape with the multiplicative identity in every
    /// cell.
    pub fn one(rows: usize, cols: usize) -> (out: Self)
        requires
            rows != 0,
            cols != 0,
            rows * cols <= usize::MAX,
        ensures
            out.wf(),
            out@ == Grid::<T>::ones(rows as nat, cols as nat),
    {
        Matrix::filled(rows, cols, T::one())
    }

    /// A matrix of the shape of `mat` with the multiplicative identity in
    /// every cell.
    pub fn one_like<U>(mat: &Matrix<U>) -> (out: Self)
        requires
            mat.wf(),
        ensures
            out.wf(),
            out@ == Grid::<T>::ones(mat@.rows, mat@.cols),
    {
        let ghost n: usize = mat.array.len();
        Matrix::one(mat.rows, mat.cols)
    }
}

impl<T: One + Zero + Copy> Matrix<T> {
    /// The identity matrix of `dim` rows and columns.
    pub fn eye(dim: usize) -> (out: Self)
        requires
            dim != 0,
            dim * dim <= usize::MAX,
        ensures
            out.wf(),
            out@ == Grid::<T>::identity(dim as nat),
    {
        let ghost target = Grid::<T>::identity(dim as nat);
        proof {
            Grid::lemma_tabulate(
                dim as nat,
                dim as nat,
                |r: int, c: int|
                    if r == c {
                        T::one_spec()
                    } else {
                        T::zero_spec()
                    },
            );
        }
        let mut ret: Matrix<T> = Matrix::zero(dim, dim);
        let ghost total: usize = ret.array.len();
        proof {
            assert forall|r: int, c: int| 0 <= r < dim && 0 <= c < dim implies #[trigger] ret.array@[r
                * dim + c] == T::zero_spec() by {
                lemma_cell_position(dim as nat, dim as nat, r, c);
            }
        }
        let mut i: usize = 0;
        while i < dim
            invariant
                ret.rows == dim,
                ret.cols == dim,
                total == ret.array@.len(),
                total == dim * dim,
                i <= dim,
                forall|r: int, c: int|
                    0 <= r < dim && 0 <= c < dim ==> #[trigger] ret.array@[r * dim + c] == if r == c
                        && r < i {
                        T::one_spec()
                    } else {
                        T::zero_spec()
                    },
            decreases dim - i,
        {
            proof {
                lemma_cell_position(dim as nat, dim as nat, i as int, i as int);
                assert(0 <= i * dim + i < total);
            }
            let ghost before = ret.array@;
            ret.array.set(i * dim + i, T::one());
            proof {
                assert forall|r: int, c: int| 0 <= r < dim && 0 <= c < dim implies #[trigger] ret.array@[r
                    * dim + c] == if r == c && r < i + 1 {
                    T::one_spec()
                } else {
                    T::zero_spec()
                } by {
                    lemma_cell_position(dim as nat, dim as nat, r, c);
                    if r * dim + c == i * dim + i {
                        assert(r == i && c == i);
                    } else {
                        assert(ret.array@[r * dim + c] == before[r * dim + c]);
                    }
                }
            }
            i += 1;
        }
        proof {
            assert forall|k: int| 0 <= k < total implies ret.array@[k] == target.cells[k] by {
                lemma_position_cell(dim as nat, dim as nat, k);
                let r = k / (dim as int);
                let c = k % (dim as int);
                assert(ret.array@[r * dim + c] == target.at(r, c));
            }
            assert(ret.array@ =~= target.cells);
        }
        ret
    }
}

} // verus!
