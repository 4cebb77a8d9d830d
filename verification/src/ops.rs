//! Operations on matrices, grouped by kind.

pub mod activation;
pub mod add;
pub mod elementwise;
pub mod index;
pub mod matmul;
pub mod minmax;
pub mod normalize;
pub mod num;
pub mod range;
pub mod reduce;
pub mod scalarmul;
pub mod sub;
pub mod sum;
