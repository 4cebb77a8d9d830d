//! The element-wise engine: one function of the element type applied at every
//! position of one matrix, or of two matrices of the same shape.

use vstd::prelude::*;
use crate::grid::Grid;
use crate::matrix::Matrix;

verus! {

/// `ys` holds, position by position, a value that `f` may return for the
/// value of `xs`.
pub open spec fn maps_to<T, F: Fn(T) -> T>(f: F, xs: Seq<T>, ys: Seq<T>) -> bool {
    &&& xs.len() == ys.len()
    &&& forall|i: int| 0 <= i < xs.len() ==> call_ensures(f, (xs[i],), #[trigger] ys[i])
}

impl<T: Copy> Matrix<T> {
    /// A matrix of the same shape whose cells are `f` of the cells of `self`.
    pub fn map<F: Fn(T) -> T>(&self, f: F) -> (out: Matrix<T>)
        requires
            self.wf(),
            forall|i: int| 0 <= i < self@.cells.len() ==> call_requires(f, (#[trigger] self@.cells[i],)),
        ensures
            out.wf(),
            out@.rows == self@.rows,
            out@.cols == self@.cols,
            forall|i: int|
                0 <= i < self@.cells.len() ==> call_ensures(
                    f,
                    (self@.cells[i],),
                    #[trigger] out@.cells[i],
                ),
    {
        let n: usize = self.array.len();
        let mut array: Vec<T> = Vec::with_capacity(n);
        let mut k: usize = 0;
        while k < n
            invariant
                n == self.array@.len(),
                k <= n,
                array@.len() == k,
                forall|i: int| 0 <= i < n ==> call_requires(f, (#[trigger] self.array@[i],)),
                forall|i: int|
                    0 <= i < k ==> call_ensures(f, (self.array@[i],), #[trigger] array@[i]),
            decreases n - k,
        {
            let x: T = self.array[k];
            array.push(f(x));
            k += 1;
        }
        Matrix { rows: self.rows, cols: self.cols, array }
    }

    /// A matrix of the same shape whose cells are `f` of the cells of `self`
    /// and `rhs` in the same position.
    pub fn zip_with<F: Fn(T, T) -> T>(&self, rhs: &Matrix<T>, f: F) -> (out: Matrix<T>)
        requires
            self.wf(),
            rhs.wf(),
            self@.rows == rhs@.rows,
            self@.cols == rhs@.cols,
            forall|i: int|
                0 <= i < self@.cells.len() ==> call_requires(
                    f,
                    (#[trigger] self@.cells[i], rhs@.cells[i]),
                ),
        ensures
            out.wf(),
            out@.rows == self@.rows,
            out@.cols == self@.cols,
            forall|i: int|
                0 <= i < self@.cells.len() ==> call_ensures(
                    f,
                    (self@.cells[i], rhs@.cells[i]),
                    #[trigger] out@.cells[i],
                ),
    {
        let n: usize = self.array.len();
        let mut array: Vec<T> = Vec::with_capacity(n);
        let mut k: usize = 0;
        while k < n
            invariant
                n == self.array@.len(),
                n == rhs.array@.len(),
                k <= n,
                array@.len() == k,
                forall|i: int|
                    0 <= i < n ==> call_requires(f, (#[trigger] self.array@[i], rhs.array@[i])),
                forall|i: int|
                    0 <= i < k ==> call_ensures(
                        f,
                        (self.array@[i], rhs.array@[i]),
                        #[trigger] array@[i],
                    ),
            decreases n - k,
        {
            let x: T = self.array[k];
            let y: T = rhs.array[k];
            array.push(f(x, y));
            k += 1;
        }
        Matrix { rows: self.rows, cols: self.cols, array }
    }
}

impl<T: Copy> Matrix<T> {
    /// Replaces each cell by `f` of it, in place.
    pub fn map_assign<F: Fn(T) -> T>(&mut self, f: F)
        requires
            old(self).wf(),
            forall|i: int|
                0 <= i < old(self)@.cells.len() ==> call_requires(
                    f,
                    (#[trigger] old(self)@.cells[i],),
                ),
        ensures
            final(self).wf(),
            final(self)@.rows == old(self)@.rows,
            final(self)@.cols == old(self)@.cols,
            forall|i: int|
                0 <= i < old(self)@.cells.len() ==> call_ensures(
                    f,
                    (old(self)@.cells[i],),
                    #[trigger] final(self)@.cells[i],
                ),
    {
        let ghost before = self.array@;
        let n: usize = self.array.len();
        let mut k: usize = 0;
        while k < n
            invariant
                self.rows == old(self).rows,
                self.cols == old(self).cols,
                before == old(self).array@,
                n == before.len(),
                self.array@.len() == n,
                k <= n,
                forall|i: int| 0 <= i < n ==> call_requires(f, (#[trigger] before[i],)),
                forall|i: int| 0 <= i < k ==> call_ensures(f, (before[i],), #[trigger] self.array@[i]),
                forall|i: int| k <= i < n ==> #[trigger] self.array@[i] == before[i],
            decreases n - k,
        {
            let x: T = self.array[k];
            let y: T = f(x);
            self.array.set(k, y);
            k += 1;
        }
    }

    /// Replaces each cell by `f` of it and of the cell of `rhs` in the same
    /// position, in place.
    pub fn zip_assign<F: Fn(T, T) -> T>(&mut self, rhs: &Matrix<T>, f: F)
        requires
            old(self).wf(),
            rhs.wf(),
            old(self)@.rows == rhs@.rows,
            old(self)@.cols == rhs@.cols,
            forall|i: int|
                0 <= i < old(self)@.cells.len() ==> call_requires(
                    f,
                    (#[trigger] old(self)@.cells[i], rhs@.cells[i]),
                ),
        ensures
            final(self).wf(),
            final(self)@.rows == old(self)@.rows,
            final(self)@.cols == old(self)@.cols,
            forall|i: int|
                0 <= i < old(self)@.cells.len() ==> call_ensures(
                    f,
                    (old(self)@.cells[i], rhs@.cells[i]),
                    #[trigger] final(self)@.cells[i],
                ),
    {
        let ghost before = self.array@;
        let n: usize = self.array.len();
        let mut k: usize = 0;
        while k < n
            invariant
                self.rows == old(self).rows,
                self.cols == old(self).cols,
                before == old(self).array@,
                n == before.len(),
                n == rhs.array@.len(),
                self.array@.len() == n,
                k <= n,
                forall|i: int|
                    0 <= i < n ==> call_requires(f, (#[trigger] before[i], rhs.array@[i])),
                forall|i: int|
                    0 <= i < k ==> call_ensures(
                        f,
                        (before[i], rhs.array@[i]),
                        #[trigger] self.array@[i],
                    ),
                forall|i: int| k <= i < n ==> #[trigger] self.array@[i] == before[i],
            decreases n - k,
        {
            let x: T = self.array[k];
            let y: T = f(x, rhs.array[k]);
            self.array.set(k, y);
            k += 1;
        }
    }
}

} // verus!
