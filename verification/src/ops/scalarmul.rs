//! Negation, and multiplication and division of every cell by one value.

use vstd::prelude::*;
use vstd::std_specs::ops::DivSpecImpl;
use vstd::std_specs::ops::MulSpecImpl;
use vstd::std_specs::ops::NegSpecImpl;
use vstd::std_specs::ops::DivSpec;
use vstd::std_specs::ops::MulSpec;
use vstd::std_specs::ops::NegSpec;
use std::ops::Div;
use std::ops::Mul;
use std::ops::Neg;
use crate::grid::Grid;
use crate::matrix::Matrix;

verus! {

impl<T: Neg<Output = T>> Grid<T> {
    /// Every cell can be negated.
    pub open spec fn can_negated(self) -> bool {
        forall|i: int| 0 <= i < self.cells.len() ==> (#[trigger] self.cells[i]).neg_req()
    }

    /// The grid of the negated cells.
    pub open spec fn negated(self) -> Grid<T> {
        self.mapped(|x: T| x.neg_spec())
    }
}

impl<T: Mul<Output = T>> Grid<T> {
    /// Every cell can be multiplied by `s`.
    pub open spec fn can_scaled(self, s: T) -> bool {
        forall|i: int| 0 <= i < self.cells.len() ==> (#[trigger] self.cells[i]).mul_req(s)
    }

    /// The grid of the cells multiplied by `s`, with `s` on the right.
    pub open spec fn scaled(self, s: T) -> Grid<T> {
        self.mapped(|x: T| x.mul_spec(s))
    }
}

impl<T: Div<Output = T>> Grid<T> {
    /// Every cell can be divided by `s`.
    pub open spec fn can_divided(self, s: T) -> bool {
        forall|i: int| 0 <= i < self.cells.len() ==> (#[trigger] self.cells[i]).div_req(s)
    }

    /// The grid of the cells divided by `s`.
    pub open spec fn divided(self, s: T) -> Grid<T> {
        self.mapped(|x: T| x.div_spec(s))
    }
}

impl<T: Copy + Neg<Output = T>> Matrix<T> {
    /// The matrix of the negated cells.
    pub fn negated(&self) -> (out: Matrix<T>)
        requires
            self.wf(),
            self@.can_negated(),
        ensures
            out.wf(),
            out@.rows == self@.rows,
            out@.cols == self@.cols,
            T::obeys_neg_spec() ==> out@ == self@.negated(),
    {
        let negate = |x: T| -> (z: T)
            requires
                x.neg_req(),
            ensures
                T::obeys_neg_spec() ==> z == x.neg_spec(),
            {
                x.neg()
            };
        let out = self.map(negate);
        proof {
            if T::obeys_neg_spec() {
                assert(out@.cells =~= self@.negated().cells);
            }
        }
        out
    }
}

impl<T: Copy + Mul<Output = T>> Matrix<T> {
    /// The matrix of the cells multiplied by `rhs`.
    pub fn scaled(&self, rhs: T) -> (out: Matrix<T>)
        requires
            self.wf(),
            self@.can_scaled(rhs),
        ensures
            out.wf(),
            out@.rows == self@.rows,
            out@.cols == self@.cols,
            T::obeys_mul_spec() ==> out@ == self@.scaled(rhs),
    {
        let scale = |x: T| -> (z: T)
            requires
                x.mul_req(rhs),
            ensures
                T::obeys_mul_spec() ==> z == x.mul_spec(rhs),
            {
                x * rhs
            };
        let out = self.map(scale);
        proof {
            if T::obeys_mul_spec() {
                assert(out@.cells =~= self@.scaled(rhs).cells);
            }
        }
        out
    }

    /// Multiplies every cell by `rhs`, in place.
    pub fn mul_assign(&mut self, rhs: T)
        requires
            old(self).wf(),
            old(self)@.can_scaled(rhs),
        ensures
            final(self).wf(),
            final(self)@.rows == old(self)@.rows,
            final(self)@.cols == old(self)@.cols,
            T::obeys_mul_spec() ==> final(self)@ == old(self)@.scaled(rhs),
    {
        let scale = |x: T| -> (z: T)
            requires
                x.mul_req(rhs),
            ensures
                T::obeys_mul_spec() ==> z == x.mul_spec(rhs),
            {
                x * rhs
            };
        self.map_assign(scale);
        proof {
            if T::obeys_mul_spec() {
                assert(self@.cells =~= old(self)@.scaled(rhs).cells);
            }
        }
    }
}

impl<T: Copy + Div<Output = T>> Matrix<T> {
    /// The matrix of the cells divided by `rhs`.
    pub fn divided(&self, rhs: T) -> (out: Matrix<T>)
        requires
            self.wf(),
            self@.can_divided(rhs),
        ensures
            out.wf(),
            out@.rows == self@.rows,
            out@.cols == self@.cols,
            T::obeys_div_spec() ==> out@ == self@.divided(rhs),
    {
        let divide = |x: T| -> (z: T)
            requires
                x.div_req(rhs),
            ensures
                T::obeys_div_spec() ==> z == x.div_spec(rhs),
            {
                x / rhs
            };
        let out = self.map(divide);
        proof {
            if T::obeys_div_spec() {
                assert(out@.cells =~= self@.divided(rhs).cells);
            }
        }
        out
    }

    /// Divides every cell by `rhs`, in place.
    pub fn div_assign(&mut self, rhs: T)
        requires
            old(self).wf(),
            old(self)@.can_divided(rhs),
        ensures
            final(self).wf(),
            final(self)@.rows == old(self)@.rows,
            final(self)@.cols == old(self)@.cols,
            T::obeys_div_spec() ==> final(self)@ == old(self)@.divided(rhs),
    {
        let divide = |x: T| -> (z: T)
            requires
                x.div_req(rhs),
            ensures
                T::obeys_div_spec() ==> z == x.div_spec(rhs),
            {
                x / rhs
            };
        self.map_assign(divide);
        proof {
            if T::obeys_div_spec() {
                assert(self@.cells =~= old(self)@.divided(rhs).cells);
            }
        }
    }
}

impl<'a, T: Copy + Neg<Output = T>> NegSpecImpl for &'a Matrix<T> {
    /// What the operator returns is stated by its own `ensures`, not by
    /// `neg_spec`.
    open spec fn obeys_neg_spec() -> bool {
        false
    }

    /// What the operator asks of its operands.
    open spec fn neg_req(self) -> bool {
        self.wf() && self@.can_negated()
    }

    /// Left open: see `obeys_neg_spec`.
    open spec fn neg_spec(self) -> Matrix<T> {
        arbitrary()
    }
}

impl<'a, T: Copy + Neg<Output = T>> Neg for &'a Matrix<T> {
    type Output = Matrix<T>;

    /// The matrix of the negated cells.
    fn neg(self) -> (out: Matrix<T>)
        ensures
            out.wf(),
            out@.rows == self@.rows,
            out@.cols == self@.cols,
            T::obeys_neg_spec() ==> out@ == self@.negated(),
    {
        Matrix::negated(self)
    }
}

impl<T: Copy + Neg<Output = T>> NegSpecImpl for Matrix<T> {
    /// What the operator returns is stated by its own `ensures`, not by
    /// `neg_spec`.
    open spec fn obeys_neg_spec() -> bool {
        false
    }

    /// What the operator asks of its operands.
    open spec fn neg_req(self) -> bool {
        self.wf() && self@.can_negated()
    }

    /// Left open: see `obeys_neg_spec`.
    open spec fn neg_spec(self) -> Matrix<T> {
        arbitrary()
    }
}

impl<T: Copy + Neg<Output = T>> Neg for Matrix<T> {
    type Output = Matrix<T>;

    /// The matrix of the negated cells.
    fn neg(self) -> (out: Matrix<T>)
        ensures
            out.wf(),
            out@.rows == self@.rows,
            out@.cols == self@.cols,
            T::obeys_neg_spec() ==> out@ == self@.negated(),
    {
        Matrix::negated(&self)
    }
}

impl<'a, T: Copy + Mul<Output = T>> MulSpecImpl<T> for &'a Matrix<T> {
    /// What the operator returns is stated by its own `ensures`, not by
    /// `mul_spec`.
    open spec fn obeys_mul_spec() -> bool {
        false
    }

    /// What the operator asks of its operands.
    open spec fn mul_req(self, rhs: T) -> bool {
        self.wf() && self@.can_scaled(rhs)
    }

    /// Left open: see `obeys_mul_spec`.
    open spec fn mul_spec(self, rhs: T) -> Matrix<T> {
        arbitrary()
    }
}

impl<'a, T: Copy + Mul<Output = T>> Mul<T> for &'a Matrix<T> {
    type Output = Matrix<T>;

    /// The matrix of the cells multiplied by `rhs`.
    fn mul(self, rhs: T) -> (out: Matrix<T>)
        ensures
            out.wf(),
            out@.rows == self@.rows,
            out@.cols == self@.cols,
            T::obeys_mul_spec() ==> out@ == self@.scaled(rhs),
    {
        Matrix::scaled(self, rhs)
    }
}

impl<T: Copy + Mul<Output = T>> MulSpecImpl<T> for Matrix<T> {
    /// What the operator returns is stated by its own `ensures`, not by
    /// `mul_spec`.
    open spec fn obeys_mul_spec() -> bool {
        false
    }

    /// What the operator asks of its operands.
    open spec fn mul_req(self, rhs: T) -> bool {
        self.wf() && self@.can_scaled(rhs)
    }

    /// Left open: see `obeys_mul_spec`.
    open spec fn mul_spec(self, rhs: T) -> Matrix<T> {
        arbitrary()
    }
}

impl<T: Copy + Mul<Output = T>> Mul<T> for Matrix<T> {
    type Output = Matrix<T>;

    /// The matrix of the cells multiplied by `rhs`.
    fn mul(self, rhs: T) -> (out: Matrix<T>)
        ensures
            out.wf(),
            out@.rows == self@.rows,
            out@.cols == self@.cols,
            T::obeys_mul_spec() ==> out@ == self@.scaled(rhs),
    {
        Matrix::scaled(&self, rhs)
    }
}

impl<'a, T: Copy + Div<Output = T>> DivSpecImpl<T> for &'a Matrix<T> {
    /// What the operator returns is stated by its own `ensures`, not by
    /// `div_spec`.
    open spec fn obeys_div_spec() -> bool {
        false
    }

    /// What the operator asks of its operands.
    open spec fn div_req(self, rhs: T) -> bool {
        self.wf() && self@.can_divided(rhs)
    }

    /// Left open: see `obeys_div_spec`.
    open spec fn div_spec(self, rhs: T) -> Matrix<T> {
        arbitrary()
    }
}

impl<'a, T: Copy + Div<Output = T>> Div<T> for &'a Matrix<T> {
    type Output = Matrix<T>;

    /// The matrix of the cells divided by `rhs`.
    fn div(self, rhs: T) -> (out: Matrix<T>)
        ensures
            out.wf(),
            out@.rows == self@.rows,
            out@.cols == self@.cols,
            T::obeys_div_spec() ==> out@ == self@.divided(rhs),
    {
        Matrix::divided(self, rhs)
    }
}

impl<T: Copy + Div<Output = T>> DivSpecImpl<T> for Matrix<T> {
    /// What the operator returns is stated by its own `ensures`, not by
    /// `div_spec`.
    open spec fn obeys_div_spec() -> bool {
        false
    }

    /// What the operator asks of its operands.
    open spec fn div_req(self, rhs: T) -> bool {
        self.wf() && self@.can_divided(rhs)
    }

    /// Left open: see `obeys_div_spec`.
    open spec fn div_spec(self, rhs: T) -> Matrix<T> {
        arbitrary()
    }
}

impl<T: Copy + Div<Output = T>> Div<T> for Matrix<T> {
    type Output = Matrix<T>;

    /// The matrix of the cells divided by `rhs`.
    fn div(self, rhs: T) -> (out: Matrix<T>)
        ensures
            out.wf(),
            out@.rows == self@.rows,
            out@.cols == self@.cols,
            T::obeys_div_spec() ==> out@ == self@.divided(rhs),
    {
        Matrix::divided(&self, rhs)
    }
}

} // verus!
