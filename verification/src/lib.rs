//! Dense matrices in row-major order over a generic element type, with
//! element-wise arithmetic, axis reductions, matrix multiplication and a
//! compressed-row sparse form.
//!
//! Every operation states its result over [`grid::Grid`], the mathematical
//! content of a matrix: a row count, a column count and the cells in
//! row-major order. The sparse form has [`sparse::Csr`] for its content.
//!
//! The element type brings its own arithmetic through the operator traits of
//! the standard library, and its identities through [`identities::Zero`] and
//! [`identities::One`]. What the operations return is stated in terms of the
//! element type's own operations; [`algebra`] names what the laws of matrix
//! arithmetic in [`laws`] ask of them, and proves it of the integer types.

pub mod algebra;
pub mod dot;
pub mod format;
pub mod grid;
pub mod identities;
pub mod laws;
pub mod matrix;
pub mod ops;
pub mod par;
pub mod rand;
pub mod sparse;
pub mod tensor;
pub mod vector;

pub use crate::grid::Grid;
pub use crate::identities::One;
pub use crate::identities::Zero;
pub use crate::matrix::Axis;
pub use crate::matrix::Matrix;
pub use crate::rand::Random;
pub use crate::sparse::SparseMatrix;
pub use crate::tensor::Tensor;
pub use crate::vector::ColVector;
pub use crate::vector::RowVector;
