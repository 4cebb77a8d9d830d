//! Division of the cells by a value for each row, each column or the whole
//! matrix, and the normalisation by sums that is built on it.

use vstd::prelude::*;
use vstd::std_specs::ops::AddSpec;
use vstd::std_specs::ops::DivSpec;
use vstd::std_specs::ops::MulSpec;
use std::ops::Add;
use std::ops::Div;
use std::ops::Mul;
use crate::dot::dot;
use crate::dot::dot_req;
use crate::dot::dot_spec;
use crate::grid::Grid;
use crate::grid::lemma_cell_position;
use crate::identities::Zero;
use crate::matrix::Axis;
use crate::matrix::Matrix;
use crate::ops::elementwise::maps_to;
use crate::ops::reduce::reduces;

verus! {

/// The position, in a reduction along `ax`, of the value that belongs to
/// cell `(r, c)`: the row for `Axis::ROW`, the column for `Axis::COLUMN`, and
/// the only position where no axis is given.
pub open spec fn lane_of(ax: Option<Axis>, r: int, c: int) -> int {
    match ax {
        Some(Axis::ROW) => r,
        Some(Axis::COLUMN) => c,
        None => 0,
    }
}

impl<T: Div<Output = T>> Grid<T> {
    /// `d` has the shape of a reduction of `self` along `ax`, and every cell
    /// can be divided by the value of `d` that belongs to it.
    pub open spec fn can_divided_along(self, d: Grid<T>, ax: Option<Axis>) -> bool {
        &&& d.rows == self.reduced_rows(ax)
        &&& d.cols == self.reduced_cols(ax)
        &&& forall|r: int, c: int|
            0 <= r < self.rows && 0 <= c < self.cols ==> (#[trigger] self.at(r, c)).div_req(
                d.cells[lane_of(ax, r, c)],
            )
    }

    /// Every cell divided by the value of `d` that belongs to it: the value
    /// for its row, for its column, or the single value of `d`.
    pub open spec fn divided_along(self, d: Grid<T>, ax: Option<Axis>) -> Grid<T> {
        Grid::tabulate(
            self.rows,
            self.cols,
            |r: int, c: int| self.at(r, c).div_spec(d.cells[lane_of(ax, r, c)]),
        )
    }
}

impl<T: Zero + Add<Output = T> + Mul<Output = T>> Grid<T> {
    /// Every sum of squares that a reduction along `ax` makes can be
    /// computed.
    pub open spec fn can_squares_summed(self, ax: Option<Axis>) -> bool {
        forall|k: int|
            0 <= k < self.reduced_len(ax) ==> dot_req(#[trigger] self.lane(ax, k), self.lane(ax, k))
    }

    /// The sums of the squares along `ax`: of each row as a column, of each
    /// column as a row, or of all the cells as a single value.
    pub open spec fn squares_summed(self, ax: Option<Axis>) -> Grid<T> {
        self.reduced(ax, |s: Seq<T>| dot_spec(s, s))
    }
}

impl<T: Zero + Add<Output = T> + Div<Output = T>> Grid<T> {
    /// The sums along `ax` can be computed and every cell can be divided by
    /// the sum that belongs to it.
    pub open spec fn can_normalized1(self, ax: Option<Axis>) -> bool {
        self.can_summed(ax) && self.can_divided_along(self.summed(ax), ax)
    }

    /// Every cell divided by the sum of its row, of its column, or of all
    /// the cells.
    pub open spec fn normalized1(self, ax: Option<Axis>) -> Grid<T> {
        self.divided_along(self.summed(ax), ax)
    }
}

/// The sum of the squares of the values of `s`, accumulated from left to
/// right.
pub fn sum_squares_slice<T: Copy + Zero + Add<Output = T> + Mul<Output = T>>(s: &[T]) -> (total: T)
    requires
        T::obeys_add_spec(),
        T::obeys_mul_spec(),
        dot_req(s@, s@),
    ensures
        total == dot_spec(s@, s@),
{
    dot(s, s)
}

impl<T: Copy + Div<Output = T>> Matrix<T> {
    /// Divides every cell by the value of `divisors` that belongs to it.
    ///
    /// `divisors` has the shape of a reduction along `ax`: a column with one
    /// value for each row, a row with one value for each column, or a single
    /// value for the whole matrix.
    pub fn div_axis(&self, divisors: &Matrix<T>, ax: Option<Axis>) -> (out: Matrix<T>)
        requires
            self.wf(),
            divisors.wf(),
            self@.can_divided_along(divisors@, ax),
        ensures
            out.wf(),
            out@.rows == self@.rows,
            out@.cols == self@.cols,
            T::obeys_div_spec() ==> out@ == self@.divided_along(divisors@, ax),
    {
        let ghost target = self@.divided_along(divisors@, ax);
        proof {
            Grid::lemma_tabulate(
                self@.rows,
                self@.cols,
                |r: int, c: int| self@.at(r, c).div_spec(divisors@.cells[lane_of(ax, r, c)]),
            );
            assert(divisors@.rows * divisors@.cols == divisors@.cells.len());
            assert(divisors@.cells.len() >= self@.reduced_len(ax)) by (nonlinear_arith)
                requires
                    divisors@.rows * divisors@.cols == divisors@.cells.len(),
                    divisors@.rows >= 1,
                    divisors@.cols >= 1,
                    self@.reduced_len(ax) == divisors@.rows || self@.reduced_len(ax)
                        == divisors@.cols,
            ;
        }
        let n: usize = self.array.len();
        let ghost m: usize = divisors.array.len();
        let mut array: Vec<T> = Vec::with_capacity(n);
        let mut r: usize = 0;
        while r < self.rows
            invariant
                self.wf(),
                divisors.wf(),
                self@.can_divided_along(divisors@, ax),
                target == self@.divided_along(divisors@, ax),
                target.wf(),
                target.rows == self@.rows,
                target.cols == self@.cols,
                n == self.array@.len(),
                m == divisors.array@.len(),
                m >= self@.reduced_len(ax),
                r <= self.rows,
                array@.len() == r * self.cols,
                T::obeys_div_spec() ==> forall|i: int|
                    0 <= i < array@.len() ==> #[trigger] array@[i] == target.cells[i],
            decreases self.rows - r,
        {
            let mut c: usize = 0;
            while c < self.cols
                invariant
                    self.wf(),
                    divisors.wf(),
                    self@.can_divided_along(divisors@, ax),
                    target == self@.divided_along(divisors@, ax),
                    target.wf(),
                    target.rows == self@.rows,
                    target.cols == self@.cols,
                    n == self.array@.len(),
                    m == divisors.array@.len(),
                    m >= self@.reduced_len(ax),
                    r < self.rows,
                    c <= self.cols,
                    array@.len() == r * self.cols + c,
                    T::obeys_div_spec() ==> forall|i: int|
                        0 <= i < array@.len() ==> #[trigger] array@[i] == target.cells[i],
                decreases self.cols - c,
            {
                let k: usize = match ax {
                    Some(Axis::ROW) => r,
                    Some(Axis::COLUMN) => c,
                    None => 0,
                };
                proof {
                    lemma_cell_position(self@.rows, self@.cols, r as int, c as int);
                    assert(0 <= r * self.cols + c < n);
                    assert(k == lane_of(ax, r as int, c as int));
                    assert(self@.at(r as int, c as int).div_req(divisors@.cells[k as int]));
                    assert(target.at(r as int, c as int) == self@.at(r as int, c as int).div_spec(
                        divisors@.cells[k as int],
                    ));
                }
                let x: T = self.array[r * self.cols + c];
                array.push(x / divisors.array[k]);
                c += 1;
            }
            r += 1;
            assert(r * self.cols == (r - 1) * self.cols + self.cols) by (nonlinear_arith);
        }
        proof {
            if T::obeys_div_spec() {
                assert(array@ =~= target.cells);
            }
        }
        Matrix { rows: self.rows, cols: self.cols, array }
    }
}

impl<T: Copy + Zero + Add<Output = T> + Mul<Output = T>> Matrix<T> {
    /// The sums of the squares along `ax`.
    ///
    /// `Some(Axis::ROW)` gives a column with the sum of the squares of each
    /// row, `Some(Axis::COLUMN)` a row with that of each column, and `None`
    /// the single sum of the squares of all the cells.
    pub fn sum_squares(&self, ax: Option<Axis>) -> (out: Matrix<T>)
        requires
            self.wf(),
            T::obeys_add_spec(),
            T::obeys_mul_spec(),
            self@.can_squares_summed(ax),
        ensures
            out.wf(),
            out@ == self@.squares_summed(ax),
    {
        proof {
            assert forall|s: &[T]| self@.has_lane(ax, s@) implies call_requires(
                sum_squares_slice::<T>,
                (s,),
            ) by {
                self@.lemma_lane_index(ax, s@);
            }
        }
        let out = self.reduce(ax, &sum_squares_slice::<T>);
        proof {
            assert forall|k: int| 0 <= k < out@.cells.len() implies out@.cells[k] == dot_spec(
                self@.lane(ax, k),
                self@.lane(ax, k),
            ) by {
                assert(reduces(&sum_squares_slice::<T>, self@.lane(ax, k), out@.cells[k]));
            }
            assert(out@.cells =~= self@.squares_summed(ax).cells);
        }
        out
    }
}

impl<T: Copy + Zero + Add<Output = T> + Div<Output = T>> Matrix<T> {
    /// Every cell divided by the sum of the cells along `ax`: the sum of its
    /// row for `Some(Axis::ROW)`, of its column for `Some(Axis::COLUMN)`, and
    /// of the whole matrix for `None`.
    pub fn normalize1(&self, axis: Option<Axis>) -> (out: Matrix<T>)
        requires
            self.wf(),
            T::obeys_add_spec(),
            T::obeys_div_spec(),
            self@.can_normalized1(axis),
        ensures
            out.wf(),
            out@ == self@.normalized1(axis),
    {
        let sums = self.sum(axis);
        self.div_axis(&sums, axis)
    }
}

impl<T: Copy + Zero + Add<Output = T> + Mul<Output = T> + Div<Output = T>> Grid<T> {
    /// The sums of the squares along `ax` can be computed, `root` accepts
    /// each of them, and every cell can be divided by whatever `root` returns
    /// for the sum that belongs to it.
    pub open spec fn can_normalized2<F: Fn(T) -> T>(self, ax: Option<Axis>, root: F) -> bool {
        &&& self.can_squares_summed(ax)
        &&& forall|k: int|
            0 <= k < self.reduced_len(ax) ==> call_requires(
                root,
                (#[trigger] self.squares_summed(ax).cells[k],),
            )
        &&& forall|r: int, c: int, y: T|
            0 <= r < self.rows && 0 <= c < self.cols && call_ensures(
                root,
                (self.squares_summed(ax).cells[lane_of(ax, r, c)],),
                y,
            ) ==> #[trigger] self.at(r, c).div_req(y)
    }

    /// The grid of the given norms, in the shape of a reduction along `ax`.
    pub open spec fn norms_along(self, ax: Option<Axis>, norms: Seq<T>) -> Grid<T> {
        Grid { rows: self.reduced_rows(ax), cols: self.reduced_cols(ax), cells: norms }
    }
}

impl<T: Copy + Zero + Add<Output = T> + Mul<Output = T> + Div<Output = T>> Matrix<T> {
    /// Every cell divided by the norm of the cells along `ax`: `root` of the
    /// sum of the squares of its row for `Some(Axis::ROW)`, of its column for
    /// `Some(Axis::COLUMN)`, and of the whole matrix for `None`.
    ///
    /// With the square root for `root` this is the Euclidean normalisation.
    pub fn normalize2<F: Fn(T) -> T>(&self, axis: Option<Axis>, root: F) -> (out: Matrix<T>)
        requires
            self.wf(),
            T::obeys_add_spec(),
            T::obeys_mul_spec(),
            self@.can_normalized2(axis, root),
        ensures
            out.wf(),
            out@.rows == self@.rows,
            out@.cols == self@.cols,
            exists|norms: Seq<T>|
                {
                    &&& #[trigger] maps_to(root, self@.squares_summed(axis).cells, norms)
                    &&& T::obeys_div_spec() ==> out@ == self@.divided_along(
                        self@.norms_along(axis, norms),
                        axis,
                    )
                },
    {
        let sums = self.sum_squares(axis);
        let norms = sums.map(root);
        proof {
            assert forall|r: int, c: int| 0 <= r < self@.rows && 0 <= c < self@.cols implies (
            #[trigger] self@.at(r, c)).div_req(norms@.cells[lane_of(axis, r, c)]) by {
                let k = lane_of(axis, r, c);
                assert(0 <= k < sums@.cells.len());
                assert(call_ensures(root, (sums@.cells[k],), norms@.cells[k]));
                assert(self@.at(r, c).div_req(norms@.cells[k]));
            }
            assert(maps_to(root, self@.squares_summed(axis).cells, norms@.cells));
            assert(norms@ == self@.norms_along(axis, norms@.cells));
        }
        self.div_axis(&norms, axis)
    }
}

} // verus!
