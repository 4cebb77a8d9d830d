//! Row and column vectors as types of their own.

use vstd::prelude::*;

verus! {

/// A row of `dim` values.
#[derive(Clone, Debug)]
pub struct RowVector<T> {
    pub(crate) dim: usize,
    pub(crate) array: Vec<T>,
}

impl<T> View for RowVector<T> {
    type V = Seq<T>;

    open(crate) spec fn view(&self) -> Seq<T> {
        self.array@
    }
}

impl<T> RowVector<T> {
    /// The dimension that the row records.
    pub open(crate) spec fn spec_dim(&self) -> nat {
        self.dim as nat
    }

    /// The row is not empty and records the number of its values.
    pub open spec fn wf(&self) -> bool {
        self@.len() > 0 && self.spec_dim() == self@.len()
    }

    /// A row over `array`.
    pub fn from_vec(array: Vec<T>) -> (out: Self)
        requires
            array@.len() != 0,
        ensures
            out.wf(),
            out@ == array@,
    {
        RowVector { dim: array.len(), array }
    }

    /// The number of values.
    pub fn dim(&self) -> (n: usize)
        requires
            self.wf(),
        ensures
            n == self@.len(),
    {
        self.dim
    }

    /// A reference to the value at position `idx`, or `None` when the
    /// position lies outside the row.
    pub fn get_ref(&self, idx: usize) -> (out: Option<&T>)
        requires
            self.wf(),
        ensures
            out == if idx < self@.len() {
                Some(&self@[idx as int])
            } else {
                None
            },
    {
        if self.dim <= idx {
            return None;
        }
        Some(&self.array[idx])
    }

    /// A mutable reference to the value at position `idx`, or `None` when
    /// the position lies outside the row. Writing through the reference
    /// changes that value and no other.
    pub fn get_mut(&mut self, idx: usize) -> (out: Option<&mut T>)
        requires
            old(self).wf(),
        ensures
            match out {
                Some(value) => {
                    &&& idx < old(self)@.len()
                    &&& *value == old(self)@[idx as int]
                    &&& final(self)@ == old(self)@.update(idx as int, *final(value))
                    &&& final(self).wf()
                },
                None => idx >= old(self)@.len() && final(self)@ == old(self)@ && final(self).wf(),
            },
    {
        if self.dim <= idx {
            return None;
        }
        Some(&mut self.array[idx])
    }
}

impl<T: Copy> RowVector<T> {
    /// A row holding `data`.
    pub fn new<const N: usize>(data: [T; N]) -> (out: Self)
        requires
            N != 0,
        ensures
            out.wf(),
            out@ == data@,
    {
        let mut array: Vec<T> = Vec::with_capacity(N);
        let mut k: usize = 0;
        while k < N
            invariant
                k <= N,
                array@ == data@.subrange(0, k as int),
            decreases N - k,
        {
            array.push(data[k]);
            k += 1;
            assert(array@ =~= data@.subrange(0, k as int));
        }
        assert(array@ =~= data@);
        RowVector { dim: N, array }
    }
}

/// A column of `dim` values.
#[derive(Clone, Debug)]
pub struct ColVector<T> {
    pub(crate) dim: usize,
    pub(crate) array: Vec<T>,
}

impl<T> View for ColVector<T> {
    type V = Seq<T>;

    open(crate) spec fn view(&self) -> Seq<T> {
        self.array@
    }
}

impl<T> ColVector<T> {
    /// The dimension that the column records.
    pub open(crate) spec fn spec_dim(&self) -> nat {
        self.dim as nat
    }

    /// The column is not empty and records the number of its values.
    pub open spec fn wf(&self) -> bool {
        self@.len() > 0 && self.spec_dim() == self@.len()
    }

    /// A column over `array`.
    pub fn from_vec(array: Vec<T>) -> (out: Self)
        requires
            array@.len() != 0,
        ensures
            out.wf(),
            out@ == array@,
    {
        ColVector { dim: array.len(), array }
    }

    /// The number of values.
    pub fn dim(&self) -> (n: usize)
        requires
            self.wf(),
        ensures
            n == self@.len(),
    {
        self.dim
    }

    /// A reference to the value at position `idx`, or `None` when the
    /// position lies outside the column.
    pub fn get_ref(&self, idx: usize) -> (out: Option<&T>)
        requires
            self.wf(),
        ensures
            out == if idx < self@.len() {
                Some(&self@[idx as int])
            } else {
                None
            },
    {
        if self.dim <= idx {
            return None;
        }
        Some(&self.array[idx])
    }

    /// A mutable reference to the value at position `idx`, or `None` when
    /// the position lies outside the column. Writing through the reference
    /// changes that value and no other.
    pub fn get_mut(&mut self, idx: usize) -> (out: Option<&mut T>)
        requires
            old(self).wf(),
        ensures
            match out {
                Some(value) => {
                    &&& idx < old(self)@.len()
                    &&& *value == old(self)@[idx as int]
                    &&& final(self)@ == old(self)@.update(idx as int, *final(value))
                    &&& final(self).wf()
                },
                None => idx >= old(self)@.len() && final(self)@ == old(self)@ && final(self).wf(),
            },
    {
        if self.dim <= idx {
            return None;
        }
        Some(&mut self.array[idx])
    }
}

impl<T: Copy> ColVector<T> {
    /// A column holding `data`.
    pub fn new<const N: usize>(data: [T; N]) -> (out: Self)
        requires
            N != 0,
        ensures
            out.wf(),
            out@ == data@,
    {
        let mut array: Vec<T> = Vec::with_capacity(N);
        let mut k: usize = 0;
        while k < N
            invariant
                k <= N,
                array@ == data@.subrange(0, k as int),
            decreases N - k,
        {
            array.push(data[k]);
            k += 1;
            assert(array@ =~= data@.subrange(0, k as int));
        }
        assert(array@ =~= data@);
        ColVector { dim: N, array }
    }
}

} // verus!
