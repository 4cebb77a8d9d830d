//! Maps that compare each cell with given bounds: the step function, and
//! clamping and wrapping into a range.

use vstd::prelude::*;
use vstd::std_specs::ops::AddSpec;
use vstd::std_specs::ops::SubSpec;
use std::ops::Add;
use std::ops::Sub;
use crate::grid::Grid;
use crate::identities::One;
use crate::identities::Zero;
use crate::matrix::Matrix;
use crate::ops::minmax::greater;
use crate::ops::minmax::lawful_order;
use crate::ops::minmax::less;

verus! {

/// The multiplicative identity for a value strictly greater than the
/// additive identity, and the additive identity for any other value.
pub open spec fn step_spec<T: PartialOrd + Zero + One>(x: T) -> T {
    if greater(x, T::zero_spec()) {
        T::one_spec()
    } else {
        T::zero_spec()
    }
}

/// `min` for a value strictly less than `min`, else `max` for a value
/// strictly greater than `max`, else the value itself.
pub open spec fn clamp_spec<T: PartialOrd>(x: T, min: T, max: T) -> T {
    if less(x, min) {
        min
    } else if greater(x, max) {
        max
    } else {
        x
    }
}

/// A value strictly less than `min` moved up by the width of the range, as
/// `(x + max) - min`; else a value strictly greater than `max` moved down by
/// it, as `x - (max - min)`; else the value itself.
pub open spec fn repeat_spec<T: PartialOrd + Add<Output = T> + Sub<Output = T>>(
    x: T,
    min: T,
    max: T,
) -> T {
    if less(x, min) {
        x.add_spec(max).sub_spec(min)
    } else if greater(x, max) {
        x.sub_spec(max.sub_spec(min))
    } else {
        x
    }
}

/// The additions and subtractions that `repeat_spec` makes for `x` are
/// permitted by the element type.
pub open spec fn repeat_req<T: PartialOrd + Add<Output = T> + Sub<Output = T>>(
    x: T,
    min: T,
    max: T,
) -> bool {
    if less(x, min) {
        x.add_req(max) && x.add_spec(max).sub_req(min)
    } else if greater(x, max) {
        max.sub_req(min) && x.sub_req(max.sub_spec(min))
    } else {
        true
    }
}

impl<T: PartialOrd + Zero + One + Copy> Matrix<T> {
    /// The step function of every cell: one where the cell is strictly
    /// greater than zero, zero elsewhere.
    pub fn step(&self) -> (out: Matrix<T>)
        requires
            self.wf(),
        ensures
            out.wf(),
            out@.rows == self@.rows,
            out@.cols == self@.cols,
            lawful_order::<T>() ==> out@ == self@.mapped(|x: T| step_spec(x)),
    {
        let step_one = |x: T| -> (z: T)
            ensures
                lawful_order::<T>() ==> z == step_spec(x),
            {
                if x > T::zero() {
                    T::one()
                } else {
                    T::zero()
                }
            };
        let out = self.map(step_one);
        proof {
            if lawful_order::<T>() {
                assert(out@.cells =~= self@.mapped(|x: T| step_spec(x)).cells);
            }
        }
        out
    }
}

impl<T: PartialOrd + Copy> Matrix<T> {
    /// Every cell brought into the range from `min` to `max`: a cell below
    /// the range becomes `min`, a cell above it becomes `max`.
    pub fn clamp(&self, min: T, max: T) -> (out: Matrix<T>)
        requires
            self.wf(),
        ensures
            out.wf(),
            out@.rows == self@.rows,
            out@.cols == self@.cols,
            lawful_order::<T>() ==> out@ == self@.mapped(|x: T| clamp_spec(x, min, max)),
    {
        let clamp_one = |x: T| -> (z: T)
            ensures
                lawful_order::<T>() ==> z == clamp_spec(x, min, max),
            {
                if x < min {
                    min
                } else if x > max {
                    max
                } else {
                    x
                }
            };
        let out = self.map(clamp_one);
        proof {
            if lawful_order::<T>() {
                assert(out@.cells =~= self@.mapped(|x: T| clamp_spec(x, min, max)).cells);
            }
        }
        out
    }
}

impl<T: PartialOrd + Copy + Add<Output = T> + Sub<Output = T>> Grid<T> {
    /// Every cell can be wrapped into the range from `min` to `max`.
    pub open spec fn can_repeated(self, min: T, max: T) -> bool {
        forall|i: int| 0 <= i < self.cells.len() ==> repeat_req(#[trigger] self.cells[i], min, max)
    }
}

impl<T: PartialOrd + Copy + Add<Output = T> + Sub<Output = T>> Matrix<T> {
    /// Every cell wrapped once into the range from `min` to `max`: a cell
    /// below the range is moved up by the width of the range, a cell above it
    /// is moved down by that width.
    pub fn repeat(&self, min: T, max: T) -> (out: Matrix<T>)
        requires
            self.wf(),
            lawful_order::<T>(),
            T::obeys_add_spec(),
            T::obeys_sub_spec(),
            self@.can_repeated(min, max),
        ensures
            out.wf(),
            out@ == self@.mapped(|x: T| repeat_spec(x, min, max)),
    {
        let wrap = |x: T| -> (z: T)
            requires
                lawful_order::<T>(),
                T::obeys_add_spec(),
                T::obeys_sub_spec(),
                repeat_req(x, min, max),
            ensures
                z == repeat_spec(x, min, max),
            {
                if x < min {
                    x + max - min
                } else if x > max {
                    x - (max - min)
                } else {
                    x
                }
            };
        let out = self.map(wrap);
        proof {
            assert(out@.cells =~= self@.mapped(|x: T| repeat_spec(x, min, max)).cells);
        }
        out
    }
}

} // verus!
