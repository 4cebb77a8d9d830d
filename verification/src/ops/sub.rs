//! Element-wise subtraction.

use vstd::prelude::*;
use vstd::std_specs::ops::SubSpecImpl;
use vstd::std_specs::ops::SubSpec;
use std::ops::Sub;
use crate::grid::Grid;
use crate::matrix::Matrix;

verus! {

impl<T: Sub<Output = T>> Grid<T> {
    /// The two grids have one shape and each cell of `rhs` can be subtracted
    /// from the cell of `self` in the same position.
    pub open spec fn can_minus(self, rhs: Grid<T>) -> bool {
        &&& self.rows == rhs.rows
        &&& self.cols == rhs.cols
        &&& forall|i: int|
            0 <= i < self.cells.len() ==> (#[trigger] self.cells[i]).sub_req(rhs.cells[i])
    }

    /// The cell-by-cell difference.
    pub open spec fn minus(self, rhs: Grid<T>) -> Grid<T> {
        self.zipped(rhs, |x: T, y: T| x.sub_spec(y))
    }
}

impl<T: Copy + Sub<Output = T>> Matrix<T> {
    /// The difference of two matrices of the same shape.
    pub fn minus(&self, rhs: &Matrix<T>) -> (out: Matrix<T>)
        requires
            self.wf(),
            rhs.wf(),
            self@.can_minus(rhs@),
        ensures
            out.wf(),
            out@.rows == self@.rows,
            out@.cols == self@.cols,
            T::obeys_sub_spec() ==> out@ == self@.minus(rhs@),
    {
        let difference = |x: T, y: T| -> (z: T)
            requires
                x.sub_req(y),
            ensures
                T::obeys_sub_spec() ==> z == x.sub_spec(y),
            {
                x - y
            };
        let out = self.zip_with(rhs, difference);
        proof {
            if T::obeys_sub_spec() {
                assert(out@.cells =~= self@.minus(rhs@).cells);
            }
        }
        out
    }

    /// Subtracts `rhs` from the matrix, in place.
    pub fn sub_assign(&mut self, rhs: &Matrix<T>)
        requires
            old(self).wf(),
            rhs.wf(),
            old(self)@.can_minus(rhs@),
        ensures
            final(self).wf(),
            final(self)@.rows == old(self)@.rows,
            final(self)@.cols == old(self)@.cols,
            T::obeys_sub_spec() ==> final(self)@ == old(self)@.minus(rhs@),
    {
        let difference = |x: T, y: T| -> (z: T)
            requires
                x.sub_req(y),
            ensures
                T::obeys_sub_spec() ==> z == x.sub_spec(y),
            {
                x - y
            };
        self.zip_assign(rhs, difference);
        proof {
            if T::obeys_sub_spec() {
                assert(self@.cells =~= old(self)@.minus(rhs@).cells);
            }
        }
    }
}

impl<'a, 'b, T: Copy + Sub<Output = T>> SubSpecImpl<&'b Matrix<T>> for &'a Matrix<T> {
    /// What the operator returns is stated by its own `ensures`, not by
    /// `sub_spec`.
    open spec fn obeys_sub_spec() -> bool {
        false
    }

    /// What the operator asks of its operands.
    open spec fn sub_req(self, rhs: &'b Matrix<T>) -> bool {
        self.wf() && rhs.wf() && self@.can_minus(rhs@)
    }

    /// Left open: see `obeys_sub_spec`.
    open spec fn sub_spec(self, rhs: &'b Matrix<T>) -> Matrix<T> {
        arbitrary()
    }
}

impl<'a, 'b, T: Copy + Sub<Output = T>> Sub<&'b Matrix<T>> for &'a Matrix<T> {
    type Output = Matrix<T>;

    /// The difference of two matrices of the same shape.
    fn sub(self, rhs: &'b Matrix<T>) -> (out: Matrix<T>)
        ensures
            out.wf(),
            out@.rows == self@.rows,
            out@.cols == self@.cols,
            T::obeys_sub_spec() ==> out@ == self@.minus(rhs@),
    {
        Matrix::minus(self, rhs)
    }
}

impl<'b, T: Copy + Sub<Output = T>> SubSpecImpl<&'b Matrix<T>> for Matrix<T> {
    /// What the operator returns is stated by its own `ensures`, not by
    /// `sub_spec`.
    open spec fn obeys_sub_spec() -> bool {
        false
    }

    /// What the operator asks of its operands.
    open spec fn sub_req(self, rhs: &'b Matrix<T>) -> bool {
        self.wf() && rhs.wf() && self@.can_minus(rhs@)
    }

    /// Left open: see `obeys_sub_spec`.
    open spec fn sub_spec(self, rhs: &'b Matrix<T>) -> Matrix<T> {
        arbitrary()
    }
}

impl<'b, T: Copy + Sub<Output = T>> Sub<&'b Matrix<T>> for Matrix<T> {
    type Output = Matrix<T>;

    /// The difference of two matrices of the same shape.
    fn sub(self, rhs: &'b Matrix<T>) -> (out: Matrix<T>)
        ensures
            out.wf(),
            out@.rows == self@.rows,
            out@.cols == self@.cols,
            T::obeys_sub_spec() ==> out@ == self@.minus(rhs@),
    {
        Matrix::minus(&self, rhs)
    }
}

impl<'a, T: Copy + Sub<Output = T>> SubSpecImpl<Matrix<T>> for &'a Matrix<T> {
    /// What the operator returns is stated by its own `ensures`, not by
    /// `sub_spec`.
    open spec fn obeys_sub_spec() -> bool {
        false
    }

    /// What the operator asks of its operands.
    open spec fn sub_req(self, rhs: Matrix<T>) -> bool {
        self.wf() && rhs.wf() && self@.can_minus(rhs@)
    }

    /// Left open: see `obeys_sub_spec`.
    open spec fn sub_spec(self, rhs: Matrix<T>) -> Matrix<T> {
        arbitrary()
    }
}

impl<'a, T: Copy + Sub<Output = T>> Sub<Matrix<T>> for &'a Matrix<T> {
    type Output = Matrix<T>;

    /// The difference of two matrices of the same shape.
    fn sub(self, rhs: Matrix<T>) -> (out: Matrix<T>)
        ensures
            out.wf(),
            out@.rows == self@.rows,
            out@.cols == self@.cols,
            T::obeys_sub_spec() ==> out@ == self@.minus(rhs@),
    {
        Matrix::minus(self, &rhs)
    }
}

impl<T: Copy + Sub<Output = T>> SubSpecImpl<Matrix<T>> for Matrix<T> {
    /// What the operator returns is stated by its own `ensures`, not by
    /// `sub_spec`.
    open spec fn obeys_sub_spec() -> bool {
        false
    }

    /// What the operator asks of its operands.
    open spec fn sub_req(self, rhs: Matrix<T>) -> bool {
        self.wf() && rhs.wf() && self@.can_minus(rhs@)
    }

    /// Left open: see `obeys_sub_spec`.
    open spec fn sub_spec(self, rhs: Matrix<T>) -> Matrix<T> {
        arbitrary()
    }
}

impl<T: Copy + Sub<Output = T>> Sub<Matrix<T>> for Matrix<T> {
    type Output = Matrix<T>;

    /// The difference of two matrices of the same shape.
    fn sub(self, rhs: Matrix<T>) -> (out: Matrix<T>)
        ensures
            out.wf(),
            out@.rows == self@.rows,
            out@.cols == self@.cols,
            T::obeys_sub_spec() ==> out@ == self@.minus(rhs@),
    {
        Matrix::minus(&self, &rhs)
    }
}

} // verus!
