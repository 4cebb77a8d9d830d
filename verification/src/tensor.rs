//! A buffer with any number of dimensions.

use vstd::prelude::*;

verus! {

/// `D` dimensions and the values they span, in row-major order.
#[derive(Clone, Debug)]
pub struct Tensor<T, const D: usize> {
    pub(crate) dims: [usize; D],
    pub(crate) array: Vec<T>,
}

} // verus!
