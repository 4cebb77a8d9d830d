//! Sums along an axis.

use vstd::prelude::*;
use vstd::std_specs::ops::AddSpec;
use std::ops::Add;
use crate::grid::Grid;
use crate::identities::Zero;
use crate::matrix::Axis;
use crate::matrix::Matrix;
use crate::ops::reduce::reduces;

verus! {

/// The first `n` values of `s`, added one after the other, from left to
/// right, onto the additive identity.
pub open spec fn sum_prefix_spec<T: Zero + Add<Output = T>>(s: Seq<T>, n: nat) -> T
    decreases n,
{
    if n == 0 {
        T::zero_spec()
    } else {
        sum_prefix_spec(s, (n - 1) as nat).add_spec(s[n - 1])
    }
}

/// Every addition that `sum_prefix_spec` makes is permitted by the element
/// type.
pub open spec fn sum_prefix_req<T: Zero + Add<Output = T>>(s: Seq<T>, n: nat) -> bool
    decreases n,
{
    n == 0 || {
        &&& sum_prefix_req(s, (n - 1) as nat)
        &&& sum_prefix_spec(s, (n - 1) as nat).add_req(s[n - 1])
    }
}

/// The sum of the values of `s`.
pub open spec fn sum_spec<T: Zero + Add<Output = T>>(s: Seq<T>) -> T {
    sum_prefix_spec(s, s.len())
}

/// The sum of the values of `s` can be computed.
pub open spec fn sum_req<T: Zero + Add<Output = T>>(s: Seq<T>) -> bool {
    sum_prefix_req(s, s.len())
}

/// A sum that can be computed up to `n` can be computed up to any `m <= n`.
pub proof fn lemma_sum_prefix_req_earlier<T: Zero + Add<Output = T>>(s: Seq<T>, m: nat, n: nat)
    requires
        m <= n,
        sum_prefix_req(s, n),
    ensures
        sum_prefix_req(s, m),
    decreases n,
{
    if m < n {
        lemma_sum_prefix_req_earlier(s, m, (n - 1) as nat);
    }
}

/// The sum of the values of `s`, accumulated from left to right.
pub fn sum_slice<T: Copy + Zero + Add<Output = T>>(s: &[T]) -> (total: T)
    requires
        T::obeys_add_spec(),
        sum_req(s@),
    ensures
        total == sum_spec(s@),
{
    let n: usize = s.len();
    let mut acc: T = T::zero();
    let mut k: usize = 0;
    while k < n
        invariant
            T::obeys_add_spec(),
            n == s@.len(),
            k <= n,
            sum_prefix_req(s@, n as nat),
            acc == sum_prefix_spec(s@, k as nat),
        decreases n - k,
    {
        proof {
            lemma_sum_prefix_req_earlier(s@, (k + 1) as nat, n as nat);
        }
        acc = acc + s[k];
        k += 1;
    }
    acc
}

impl<T: Zero + Add<Output = T>> Grid<T> {
    /// Every sum that a reduction along `ax` makes can be computed.
    pub open spec fn can_summed(self, ax: Option<Axis>) -> bool {
        forall|k: int| 0 <= k < self.reduced_len(ax) ==> sum_req(#[trigger] self.lane(ax, k))
    }

    /// The sums along `ax`: of each row as a column, of each column as a
    /// row, or of all the cells as a single value.
    pub open spec fn summed(self, ax: Option<Axis>) -> Grid<T> {
        self.reduced(ax, |s: Seq<T>| sum_spec(s))
    }
}

impl<T: Copy + Zero + Add<Output = T>> Matrix<T> {
    /// The sums along `ax`.
    ///
    /// `Some(Axis::ROW)` gives a column with the sum of each row,
    /// `Some(Axis::COLUMN)` a row with the sum of each column, and `None` the
    /// single sum of all the cells in row-major order.
    pub fn sum(&self, ax: Option<Axis>) -> (out: Matrix<T>)
        requires
            self.wf(),
            T::obeys_add_spec(),
            self@.can_summed(ax),
        ensures
            out.wf(),
            out@ == self@.summed(ax),
    {
        proof {
            assert forall|s: &[T]| self@.has_lane(ax, s@) implies call_requires(
                sum_slice::<T>,
                (s,),
            ) by {
                self@.lemma_lane_index(ax, s@);
            }
        }
        let out = self.reduce(ax, &sum_slice::<T>);
        proof {
            assert forall|k: int| 0 <= k < out@.cells.len() implies out@.cells[k] == sum_spec(
                self@.lane(ax, k),
            ) by {
                assert(reduces(&sum_slice::<T>, self@.lane(ax, k), out@.cells[k]));
            }
            assert(out@.cells =~= self@.summed(ax).cells);
        }
        out
    }
}

} // verus!
