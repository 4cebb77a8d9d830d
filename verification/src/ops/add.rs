//! Element-wise addition.

use vstd::prelude::*;
use vstd::std_specs::ops::AddSpecImpl;
use vstd::std_specs::ops::AddSpec;
use std::ops::Add;
use crate::grid::Grid;
use crate::matrix::Matrix;

verus! {

impl<T: Add<Output = T>> Grid<T> {
    /// The two grids have one shape and each pair of cells can be added.
    pub open spec fn can_plus(self, rhs: Grid<T>) -> bool {
        &&& self.rows == rhs.rows
        &&& self.cols == rhs.cols
        &&& forall|i: int|
            0 <= i < self.cells.len() ==> (#[trigger] self.cells[i]).add_req(rhs.cells[i])
    }

    /// The cell-by-cell sum.
    pub open spec fn plus(self, rhs: Grid<T>) -> Grid<T> {
        self.zipped(rhs, |x: T, y: T| x.add_spec(y))
    }
}

impl<T: Copy + Add<Output = T>> Matrix<T> {
    /// The sum of two matrices of the same shape.
    pub fn plus(&self, rhs: &Matrix<T>) -> (out: Matrix<T>)
        requires
            self.wf(),
            rhs.wf(),
            self@.can_plus(rhs@),
        ensures
            out.wf(),
            out@.rows == self@.rows,
            out@.cols == self@.cols,
            T::obeys_add_spec() ==> out@ == self@.plus(rhs@),
    {
        let sum = |x: T, y: T| -> (z: T)
            requires
                x.add_req(y),
            ensures
                T::obeys_add_spec() ==> z == x.add_spec(y),
            {
                x + y
            };
        let out = self.zip_with(rhs, sum);
        proof {
            if T::obeys_add_spec() {
                assert(out@.cells =~= self@.plus(rhs@).cells);
            }
        }
        out
    }

    /// Adds `rhs` to the matrix, in place.
    pub fn add_assign(&mut self, rhs: &Matrix<T>)
        requires
            old(self).wf(),
            rhs.wf(),
            old(self)@.can_plus(rhs@),
        ensures
            final(self).wf(),
            final(self)@.rows == old(self)@.rows,
            final(self)@.cols == old(self)@.cols,
            T::obeys_add_spec() ==> final(self)@ == old(self)@.plus(rhs@),
    {
        let sum = |x: T, y: T| -> (z: T)
            requires
                x.add_req(y),
            ensures
                T::obeys_add_spec() ==> z == x.add_spec(y),
            {
                x + y
            };
        self.zip_assign(rhs, sum);
        proof {
            if T::obeys_add_spec() {
                assert(self@.cells =~= old(self)@.plus(rhs@).cells);
            }
        }
    }
}

impl<'a, 'b, T: Copy + Add<Output = T>> AddSpecImpl<&'b Matrix<T>> for &'a Matrix<T> {
    /// What the operator returns is stated by its own `ensures`, not by
    /// `add_spec`.
    open spec fn obeys_add_spec() -> bool {
        false
    }

    /// What the operator asks of its operands.
    open spec fn add_req(self, rhs: &'b Matrix<T>) -> bool {
        self.wf() && rhs.wf() && self@.can_plus(rhs@)
    }

    /// Left open: see `obeys_add_spec`.
    open spec fn add_spec(self, rhs: &'b Matrix<T>) -> Matrix<T> {
        arbitrary()
    }
}

impl<'a, 'b, T: Copy + Add<Output = T>> Add<&'b Matrix<T>> for &'a Matrix<T> {
    type Output = Matrix<T>;

    /// The sum of two matrices of the same shape.
    fn add(self, rhs: &'b Matrix<T>) -> (out: Matrix<T>)
        ensures
            out.wf(),
            out@.rows == self@.rows,
            out@.cols == self@.cols,
            T::obeys_add_spec() ==> out@ == self@.plus(rhs@),
    {
        Matrix::plus(self, rhs)
    }
}

impl<'b, T: Copy + Add<Output = T>> AddSpecImpl<&'b Matrix<T>> for Matrix<T> {
    /// What the operator returns is stated by its own `ensures`, not by
    /// `add_spec`.
    open spec fn obeys_add_spec() -> bool {
        false
    }

    /// What the operator asks of its operands.
    open spec fn add_req(self, rhs: &'b Matrix<T>) -> bool {
        self.wf() && rhs.wf() && self@.can_plus(rhs@)
    }

    /// Left open: see `obeys_add_spec`.
    open spec fn add_spec(self, rhs: &'b Matrix<T>) -> Matrix<T> {
        arbitrary()
    }
}

impl<'b, T: Copy + Add<Output = T>> Add<&'b Matrix<T>> for Matrix<T> {
    type Output = Matrix<T>;

    /// The sum of two matrices of the same shape.
    fn add(self, rhs: &'b Matrix<T>) -> (out: Matrix<T>)
        ensures
            out.wf(),
            out@.rows == self@.rows,
            out@.cols == self@.cols,
            T::obeys_add_spec() ==> out@ == self@.plus(rhs@),
    {
        Matrix::plus(&self, rhs)
    }
}

impl<'a, T: Copy + Add<Output = T>> AddSpecImpl<Matrix<T>> for &'a Matrix<T> {
    /// What the operator returns is stated by its own `ensures`, not by
    /// `add_spec`.
    open spec fn obeys_add_spec() -> bool {
        false
    }

    /// What the operator asks of its operands.
    open spec fn add_req(self, rhs: Matrix<T>) -> bool {
        self.wf() && rhs.wf() && self@.can_plus(rhs@)
    }

    /// Left open: see `obeys_add_spec`.
    open spec fn add_spec(self, rhs: Matrix<T>) -> Matrix<T> {
        arbitrary()
    }
}

impl<'a, T: Copy + Add<Output = T>> Add<Matrix<T>> for &'a Matrix<T> {
    type Output = Matrix<T>;

    /// The sum of two matrices of the same shape.
    fn add(self, rhs: Matrix<T>) -> (out: Matrix<T>)
        ensures
            out.wf(),
            out@.rows == self@.rows,
            out@.cols == self@.cols,
            T::obeys_add_spec() ==> out@ == self@.plus(rhs@),
    {
        Matrix::plus(self, &rhs)
    }
}

impl<T: Copy + Add<Output = T>> AddSpecImpl<Matrix<T>> for Matrix<T> {
    /// What the operator returns is stated by its own `ensures`, not by
    /// `add_spec`.
    open spec fn obeys_add_spec() -> bool {
        false
    }

    /// What the operator asks of its operands.
    open spec fn add_req(self, rhs: Matrix<T>) -> bool {
        self.wf() && rhs.wf() && self@.can_plus(rhs@)
    }

    /// Left open: see `obeys_add_spec`.
    open spec fn add_spec(self, rhs: Matrix<T>) -> Matrix<T> {
        arbitrary()
    }
}

impl<T: Copy + Add<Output = T>> Add<Matrix<T>> for Matrix<T> {
    type Output = Matrix<T>;

    /// The sum of two matrices of the same shape.
    fn add(self, rhs: Matrix<T>) -> (out: Matrix<T>)
        ensures
            out.wf(),
            out@.rows == self@.rows,
            out@.cols == self@.cols,
            T::obeys_add_spec() ==> out@ == self@.plus(rhs@),
    {
        Matrix::plus(&self, &rhs)
    }
}

} // verus!
