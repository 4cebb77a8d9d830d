//! Access to a whole row by its index.

use vstd::prelude::*;
use vstd::slice::slice_subrange;
use std::ops::Index;
use crate::grid::lemma_row_range;
use crate::matrix::Matrix;

verus! {

impl<T> vstd::std_specs::core::IndexSpecImpl<usize> for Matrix<T> {
    /// A row can be taken from a well-formed matrix by an index below the
    /// number of rows.
    open spec fn index_req(&self, index: &usize) -> bool {
        self.wf() && *index < self@.rows
    }
}

impl<T> Index<usize> for Matrix<T> {
    type Output = [T];

    /// Row `index` of the matrix.
    fn index(&self, index: usize) -> (row: &[T])
        ensures
            row@ == self@.row(index as int),
    {
        let ghost n: usize = self.array.len();
        proof {
            lemma_row_range(self@.rows, self@.cols, index as int);
            assert(index * self.cols + self.cols <= n);
        }
        slice_subrange(self.array.as_slice(), index * self.cols, index * self.cols + self.cols)
    }
}

impl<T> Matrix<T> {
    /// Row `index` of the matrix, for writing. What is written to the row is
    /// written to the matrix, and nothing else changes: the matrix stays well
    /// formed as long as the row keeps its length, as every slice does.
    pub fn index_mut(&mut self, index: usize) -> (row: &mut [T])
        requires
            old(self).wf(),
            index < old(self)@.rows,
        ensures
            row@ == old(self)@.row(index as int),
            final(row)@.len() == row@.len() ==> final(self).wf(),
            final(self)@.rows == old(self)@.rows,
            final(self)@.cols == old(self)@.cols,
            final(self)@.cells == old(self)@.cells.subrange(0, index * old(self)@.cols)
                + final(row)@ + old(self)@.cells.subrange(
                index * old(self)@.cols + old(self)@.cols,
                old(self)@.cells.len() as int,
            ),
    {
        let ghost n: usize = self.array.len();
        proof {
            lemma_row_range(self@.rows, self@.cols, index as int);
            assert(0 <= index * self.cols && index * self.cols + self.cols <= n);
        }
        let start: usize = index * self.cols;
        let width: usize = self.cols;
        let all = self.array.as_mut_slice();
        let (_, tail) = all.split_at_mut(start);
        let (row, _) = tail.split_at_mut(width);
        row
    }
}

} // verus!
