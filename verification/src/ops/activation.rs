//! The logistic function and the softmax of the cells, over an exponential
//! function that the caller supplies.

use vstd::prelude::*;
use vstd::std_specs::ops::AddSpec;
use vstd::std_specs::ops::DivSpec;
use vstd::std_specs::ops::NegSpec;
use vstd::std_specs::ops::SubSpec;
use std::ops::Add;
use std::ops::Div;
use std::ops::Neg;
use std::ops::Sub;
use crate::grid::Grid;
use crate::identities::One;
use crate::identities::Zero;
use crate::matrix::Matrix;
use crate::ops::elementwise::maps_to;
use crate::ops::minmax::lawful_order;
use crate::ops::minmax::max_spec;
use crate::ops::sum::sum_req;
use crate::ops::sum::sum_spec;

verus! {

/// `z` is the logistic function of `x` over `exp`: one divided by the sum of
/// one and a value that `exp` may return for the negation of `x`.
pub open spec fn sigmoid_of<
    T: One + Add<Output = T> + Neg<Output = T> + Div<Output = T>,
    F: Fn(T) -> T,
>(exp: &F, x: T, z: T) -> bool {
    exists|y: T|
        {
            &&& #[trigger] call_ensures(*exp, (x.neg_spec(),), y)
            &&& T::obeys_div_spec() ==> z == T::one_spec().div_spec(T::one_spec().add_spec(y))
        }
}

/// `x` can be negated, `exp` accepts the negation, and whatever it returns
/// can be added to one and then divide one.
pub open spec fn sigmoid_req<
    T: One + Add<Output = T> + Neg<Output = T> + Div<Output = T>,
    F: Fn(T) -> T,
>(exp: &F, x: T) -> bool {
    &&& x.neg_req()
    &&& call_requires(*exp, (x.neg_spec(),))
    &&& forall|y: T| #[trigger]
        call_ensures(*exp, (x.neg_spec(),), y) ==> T::one_spec().add_req(y)
            && T::one_spec().div_req(T::one_spec().add_spec(y))
}

impl<T: Copy + One + Add<Output = T> + Neg<Output = T> + Div<Output = T>> Matrix<T> {
    /// The logistic function of every cell: `1 / (1 + exp(-x))`.
    pub fn sigmoid<F: Fn(T) -> T>(&self, exp: F) -> (out: Matrix<T>)
        requires
            self.wf(),
            T::obeys_neg_spec(),
            T::obeys_add_spec(),
            forall|i: int| 0 <= i < self@.cells.len() ==> sigmoid_req(&exp, #[trigger] self@.cells[i]),
        ensures
            out.wf(),
            out@.rows == self@.rows,
            out@.cols == self@.cols,
            forall|i: int|
                0 <= i < self@.cells.len() ==> sigmoid_of(
                    &exp,
                    self@.cells[i],
                    #[trigger] out@.cells[i],
                ),
    {
        let logistic = |x: T| -> (z: T)
            requires
                T::obeys_neg_spec(),
                T::obeys_add_spec(),
                sigmoid_req(&exp, x),
            ensures
                sigmoid_of(&exp, x, z),
            {
                let y: T = exp(x.neg());
                T::one() / (T::one() + y)
            };
        self.map(logistic)
    }
}

impl<T: Copy + PartialOrd + Zero + Add<Output = T> + Sub<Output = T> + Div<Output = T>> Grid<T> {
    /// The cells with the largest cell subtracted from each.
    pub open spec fn shifted(self) -> Seq<T> {
        Seq::new(self.cells.len(), |i: int| self.cells[i].sub_spec(max_spec(self.cells)))
    }

    /// The largest cell can be subtracted from every cell, `exp` accepts each
    /// difference, and whatever it returns can be summed and then divided by
    /// the sum.
    pub open spec fn can_softmax<F: Fn(T) -> T>(self, exp: F) -> bool {
        &&& forall|i: int|
            0 <= i < self.cells.len() ==> (#[trigger] self.cells[i]).sub_req(max_spec(self.cells))
        &&& forall|i: int|
            0 <= i < self.cells.len() ==> call_requires(exp, (#[trigger] self.shifted()[i],))
        &&& forall|e: Seq<T>| #[trigger]
            maps_to(exp, self.shifted(), e) ==> sum_req(e) && forall|i: int|
                0 <= i < e.len() ==> (#[trigger] e[i]).div_req(sum_spec(e))
    }

    /// The grid of the shape of `self` whose cells are the values of `e`,
    /// each divided by the sum of them all.
    pub open spec fn shares(self, e: Seq<T>) -> Grid<T> {
        Grid {
            rows: self.rows,
            cols: self.cols,
            cells: Seq::new(e.len(), |i: int| e[i].div_spec(sum_spec(e))),
        }
    }
}

impl<T: Copy + PartialOrd + Zero + Add<Output = T> + Sub<Output = T> + Div<Output = T>> Matrix<T> {
    /// The softmax of the cells: the largest cell is subtracted from each,
    /// `exp` is taken of each difference, and each result is divided by the
    /// sum of them all.
    pub fn softmax<F: Fn(T) -> T>(&self, exp: F) -> (out: Matrix<T>)
        requires
            self.wf(),
            lawful_order::<T>(),
            T::obeys_add_spec(),
            T::obeys_sub_spec(),
            self@.can_softmax(exp),
        ensures
            out.wf(),
            out@.rows == self@.rows,
            out@.cols == self@.cols,
            exists|e: Seq<T>|
                {
                    &&& #[trigger] maps_to(exp, self@.shifted(), e)
                    &&& T::obeys_div_spec() ==> out@ == self@.shares(e)
                },
    {
        let top = self.max(None);
        let max_coef: T = top.array[0];
        proof {
            assert(top@.cells[0] == max_spec(self@.lane(None, 0)));
            assert(max_coef == max_spec(self@.cells));
        }
        let shift = |x: T| -> (z: T)
            requires
                x.sub_req(max_coef),
            ensures
                z == x.sub_spec(max_coef),
            {
                x - max_coef
            };
        let tmp = self.map(shift);
        proof {
            assert(tmp@.cells =~= self@.shifted());
        }
        let raised = tmp.map(exp);
        proof {
            assert(maps_to(exp, self@.shifted(), raised@.cells));
            assert(raised@.lane(None, 0) == raised@.cells);
        }
        let total: T = raised.sum(None).array[0];
        proof {
            assert(total == sum_spec(raised@.cells));
        }
        let out = raised.divided(total);
        proof {
            if T::obeys_div_spec() {
                assert(out@.cells =~= self@.shares(raised@.cells).cells);
            }
        }
        out
    }
}

} // verus!
