//! Largest and smallest values: along an axis, and cell by cell.

use vstd::prelude::*;
use vstd::std_specs::cmp::PartialOrdIs;
use vstd::std_specs::cmp::PartialOrdSpec;
use crate::grid::Grid;
use crate::identities::Zero;
use crate::matrix::Axis;
use crate::matrix::Matrix;
use crate::ops::reduce::reduces;

verus! {

/// The comparisons of the element type return what its ordering says.
pub open spec fn lawful_order<T: PartialOrd>() -> bool {
    T::obeys_partial_cmp_spec()
}

/// `x` is strictly greater than `y` in the ordering of the element type.
pub open spec fn greater<T: PartialOrd>(x: T, y: T) -> bool {
    x.is_gt(&y)
}

/// `x` is strictly less than `y` in the ordering of the element type.
pub open spec fn less<T: PartialOrd>(x: T, y: T) -> bool {
    x.is_lt(&y)
}

/// The greater of two values: `x` where it is strictly greater, else `y`.
pub open spec fn max2<T: PartialOrd>(x: T, y: T) -> T {
    if greater(x, y) {
        x
    } else {
        y
    }
}

/// The lesser of two values: `x` where it is strictly less, else `y`.
pub open spec fn min2<T: PartialOrd>(x: T, y: T) -> T {
    if less(x, y) {
        x
    } else {
        y
    }
}

/// The first value of `s` folded with each of the next `n - 1` values by
/// `max2`, from left to right.
pub open spec fn max_prefix_spec<T: PartialOrd>(s: Seq<T>, n: nat) -> T
    decreases n,
{
    if n <= 1 {
        s[0]
    } else {
        max2(max_prefix_spec(s, (n - 1) as nat), s[n - 1])
    }
}

/// The first value of `s` folded with each of the next `n - 1` values by
/// `min2`, from left to right.
pub open spec fn min_prefix_spec<T: PartialOrd>(s: Seq<T>, n: nat) -> T
    decreases n,
{
    if n <= 1 {
        s[0]
    } else {
        min2(min_prefix_spec(s, (n - 1) as nat), s[n - 1])
    }
}

/// The largest value of a sequence that is not empty.
pub open spec fn max_spec<T: PartialOrd>(s: Seq<T>) -> T {
    max_prefix_spec(s, s.len())
}

/// The smallest value of a sequence that is not empty.
pub open spec fn min_spec<T: PartialOrd>(s: Seq<T>) -> T {
    min_prefix_spec(s, s.len())
}

/// The ordering of the element type is a strict total order: of two values
/// that differ exactly one is greater, `greater` and `less` mirror each
/// other, and `greater` is transitive.
pub open spec fn total_order<T: PartialOrd>() -> bool {
    &&& forall|x: T, y: T| #![trigger greater(x, y)] greater(x, y) <==> less(y, x)
    &&& forall|x: T, y: T| #![trigger greater(x, y)] greater(x, y) ==> !greater(y, x) && x != y
    &&& forall|x: T, y: T| #![trigger greater(x, y)] x != y ==> greater(x, y) || greater(y, x)
    &&& forall|x: T, y: T, z: T|
        #![trigger greater(x, y), greater(y, z)]
        greater(x, y) && greater(y, z) ==> greater(x, z)
}

/// In a strict total order the fold by `max2` is the maximum: it is one of
/// the values folded, and none of them is greater.
pub proof fn lemma_max_is_greatest<T: PartialOrd>(s: Seq<T>, n: nat)
    requires
        total_order::<T>(),
        1 <= n <= s.len(),
    ensures
        exists|i: int| 0 <= i < n && max_prefix_spec(s, n) == #[trigger] s[i],
        forall|i: int| 0 <= i < n ==> !greater(#[trigger] s[i], max_prefix_spec(s, n)),
    decreases n,
{
    if n > 1 {
        lemma_max_is_greatest(s, (n - 1) as nat);
        let before = max_prefix_spec(s, (n - 1) as nat);
        let now = max_prefix_spec(s, n);
        let j = choose|i: int| 0 <= i < n - 1 && before == #[trigger] s[i];
        if greater(before, s[n - 1]) {
            assert(now == s[j]);
        } else {
            assert(now == s[n - 1]);
            assert forall|i: int| 0 <= i < n implies !greater(#[trigger] s[i], now) by {
                if i < n - 1 && greater(s[i], now) {
                    assert(!greater(s[i], before));
                    if before != now {
                        assert(greater(now, before));
                        assert(greater(s[i], before));
                    }
                }
            }
        }
    } else {
        assert(max_prefix_spec(s, n) == s[0]);
    }
}

/// In a strict total order the fold by `min2` is the minimum: it is one of
/// the values folded, and none of them is less.
pub proof fn lemma_min_is_least<T: PartialOrd>(s: Seq<T>, n: nat)
    requires
        total_order::<T>(),
        1 <= n <= s.len(),
    ensures
        exists|i: int| 0 <= i < n && min_prefix_spec(s, n) == #[trigger] s[i],
        forall|i: int| 0 <= i < n ==> !less(#[trigger] s[i], min_prefix_spec(s, n)),
    decreases n,
{
    let now = min_prefix_spec(s, n);
    if n > 1 {
        lemma_min_is_least(s, (n - 1) as nat);
        let before = min_prefix_spec(s, (n - 1) as nat);
        let last = s[n - 1];
        let j = choose|i: int| 0 <= i < n - 1 && before == #[trigger] s[i];
        if less(before, last) {
            assert(now == s[j]);
            assert(greater(last, before) <==> less(before, last));
            assert(greater(before, last) <==> less(last, before));
            assert(!less(last, now));
        } else {
            assert(now == last);
            assert(greater(now, now) <==> less(now, now));
            assert forall|i: int| 0 <= i < n - 1 implies !less(#[trigger] s[i], now) by {
                if less(s[i], now) {
                    assert(greater(now, s[i]) <==> less(s[i], now));
                    assert(greater(before, s[i]) <==> less(s[i], before));
                    assert(greater(now, before) <==> less(before, now));
                    if before != now {
                        assert(greater(before, now) || greater(now, before));
                        assert(greater(before, now) && greater(now, s[i]));
                        assert(greater(before, s[i]));
                    }
                }
            }
        }
    } else {
        assert(now == s[0]);
        assert(greater(now, now) <==> less(now, now));
    }
}

/// The greater of `x` and `y`.
fn max_of<T: PartialOrd + Copy>(x: T, y: T) -> (z: T)
    ensures
        lawful_order::<T>() ==> z == max2(x, y),
{
    if x > y {
        x
    } else {
        y
    }
}

/// The lesser of `x` and `y`.
fn min_of<T: PartialOrd + Copy>(x: T, y: T) -> (z: T)
    ensures
        lawful_order::<T>() ==> z == min2(x, y),
{
    if x < y {
        x
    } else {
        y
    }
}

/// The largest value of a slice that is not empty.
pub fn max_slice<T: PartialOrd + Copy>(s: &[T]) -> (m: T)
    requires
        s@.len() > 0,
    ensures
        lawful_order::<T>() ==> m == max_spec(s@),
{
    let n: usize = s.len();
    let mut acc: T = s[0];
    let mut k: usize = 1;
    while k < n
        invariant
            n == s@.len(),
            1 <= k <= n,
            lawful_order::<T>() ==> acc == max_prefix_spec(s@, k as nat),
        decreases n - k,
    {
        acc = max_of(acc, s[k]);
        k += 1;
    }
    acc
}

/// The smallest value of a slice that is not empty.
pub fn min_slice<T: PartialOrd + Copy>(s: &[T]) -> (m: T)
    requires
        s@.len() > 0,
    ensures
        lawful_order::<T>() ==> m == min_spec(s@),
{
    let n: usize = s.len();
    let mut acc: T = s[0];
    let mut k: usize = 1;
    while k < n
        invariant
            n == s@.len(),
            1 <= k <= n,
            lawful_order::<T>() ==> acc == min_prefix_spec(s@, k as nat),
        decreases n - k,
    {
        acc = min_of(acc, s[k]);
        k += 1;
    }
    acc
}

impl<T: PartialOrd> Grid<T> {
    /// The largest values along `ax`: of each row as a column, of each
    /// column as a row, or of all the cells as a single value.
    pub open spec fn maxed(self, ax: Option<Axis>) -> Grid<T> {
        self.reduced(ax, |s: Seq<T>| max_spec(s))
    }

    /// The smallest values along `ax`: of each row as a column, of each
    /// column as a row, or of all the cells as a single value.
    pub open spec fn mined(self, ax: Option<Axis>) -> Grid<T> {
        self.reduced(ax, |s: Seq<T>| min_spec(s))
    }

    /// The greater of each pair of cells in the same position.
    pub open spec fn cwise_maxed(self, rhs: Grid<T>) -> Grid<T> {
        self.zipped(rhs, |x: T, y: T| max2(x, y))
    }

    /// The lesser of each pair of cells in the same position.
    pub open spec fn cwise_mined(self, rhs: Grid<T>) -> Grid<T> {
        self.zipped(rhs, |x: T, y: T| min2(x, y))
    }
}

impl<T: PartialOrd + Copy> Matrix<T> {
    /// The largest values along `ax`.
    ///
    /// `Some(Axis::ROW)` gives a column with the largest value of each row,
    /// `Some(Axis::COLUMN)` a row with the largest value of each column, and
    /// `None` the single largest value of the matrix.
    pub fn max(&self, ax: Option<Axis>) -> (out: Matrix<T>)
        requires
            self.wf(),
        ensures
            out.wf(),
            out@.rows == self@.reduced_rows(ax),
            out@.cols == self@.reduced_cols(ax),
            lawful_order::<T>() ==> out@ == self@.maxed(ax),
    {
        proof {
            assert forall|s: &[T]| self@.has_lane(ax, s@) implies call_requires(
                max_slice::<T>,
                (s,),
            ) by {
                self@.lemma_lane_len(ax, s@);
            }
        }
        let out = self.reduce(ax, &max_slice::<T>);
        proof {
            if lawful_order::<T>() {
                assert forall|k: int| 0 <= k < out@.cells.len() implies out@.cells[k] == max_spec(
                    self@.lane(ax, k),
                ) by {
                    assert(reduces(&max_slice::<T>, self@.lane(ax, k), out@.cells[k]));
                }
                assert(out@.cells =~= self@.maxed(ax).cells);
            }
        }
        out
    }

    /// The smallest values along `ax`.
    ///
    /// `Some(Axis::ROW)` gives a column with the smallest value of each row,
    /// `Some(Axis::COLUMN)` a row with the smallest value of each column, and
    /// `None` the single smallest value of the matrix.
    pub fn min(&self, ax: Option<Axis>) -> (out: Matrix<T>)
        requires
            self.wf(),
        ensures
            out.wf(),
            out@.rows == self@.reduced_rows(ax),
            out@.cols == self@.reduced_cols(ax),
            lawful_order::<T>() ==> out@ == self@.mined(ax),
    {
        proof {
            assert forall|s: &[T]| self@.has_lane(ax, s@) implies call_requires(
                min_slice::<T>,
                (s,),
            ) by {
                self@.lemma_lane_len(ax, s@);
            }
        }
        let out = self.reduce(ax, &min_slice::<T>);
        proof {
            if lawful_order::<T>() {
                assert forall|k: int| 0 <= k < out@.cells.len() implies out@.cells[k] == min_spec(
                    self@.lane(ax, k),
                ) by {
                    assert(reduces(&min_slice::<T>, self@.lane(ax, k), out@.cells[k]));
                }
                assert(out@.cells =~= self@.mined(ax).cells);
            }
        }
        out
    }

    /// The greater of each pair of cells of two matrices of the same shape.
    pub fn cwise_max(&self, rhs: &Matrix<T>) -> (out: Matrix<T>)
        requires
            self.wf(),
            rhs.wf(),
            self@.rows == rhs@.rows,
            self@.cols == rhs@.cols,
        ensures
            out.wf(),
            out@.rows == self@.rows,
            out@.cols == self@.cols,
            lawful_order::<T>() ==> out@ == self@.cwise_maxed(rhs@),
    {
        let out = self.zip_with(rhs, max_of::<T>);
        proof {
            if lawful_order::<T>() {
                assert(out@.cells =~= self@.cwise_maxed(rhs@).cells);
            }
        }
        out
    }

    /// The lesser of each pair of cells of two matrices of the same shape.
    pub fn cwise_min(&self, rhs: &Matrix<T>) -> (out: Matrix<T>)
        requires
            self.wf(),
            rhs.wf(),
            self@.rows == rhs@.rows,
            self@.cols == rhs@.cols,
        ensures
            out.wf(),
            out@.rows == self@.rows,
            out@.cols == self@.cols,
            lawful_order::<T>() ==> out@ == self@.cwise_mined(rhs@),
    {
        let out = self.zip_with(rhs, min_of::<T>);
        proof {
            if lawful_order::<T>() {
                assert(out@.cells =~= self@.cwise_mined(rhs@).cells);
            }
        }
        out
    }
}

impl<T: PartialOrd + Copy + Zero> Matrix<T> {
    /// Every cell that is not strictly greater than the additive identity is
    /// replaced by the additive identity.
    pub fn relu(&self) -> (out: Matrix<T>)
        requires
            self.wf(),
        ensures
            out.wf(),
            out@.rows == self@.rows,
            out@.cols == self@.cols,
            lawful_order::<T>() ==> out@ == self@.mapped(|x: T| max2(x, T::zero_spec())),
    {
        let zeros: Matrix<T> = Matrix::zero_like(self);
        let out = self.cwise_max(&zeros);
        proof {
            if lawful_order::<T>() {
                assert(out@.cells =~= self@.mapped(|x: T| max2(x, T::zero_spec())).cells);
            }
        }
        out
    }
}

} // verus!
