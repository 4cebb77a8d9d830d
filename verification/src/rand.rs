//! Matrices filled with values drawn from a random engine.

use vstd::prelude::*;
use rand::Rng;
use rand_chacha::ChaCha8Rng;
use crate::matrix::Matrix;

verus! {

/// The ChaCha random engine with 8 rounds, of the crate `rand_chacha`. Its
/// state is not visible to the proofs: nothing is known of what it draws.
#[verifier::external_type_specification]
#[verifier::external_body]
pub struct ExChaCha8Rng(rand_chacha::ChaCha8Rng);

/// An element type of which a random engine can draw a value.
pub trait Random: Sized {
    /// Draws one value, from the whole range of the type.
    fn random(engine: &mut ChaCha8Rng) -> Self;
}

/// Calls `rand::Rng::gen::<i8>` on the engine. Any `i8` may come back.
#[verifier::external_body]
fn draw_i8(engine: &mut ChaCha8Rng) -> i8 {
    engine.gen::<i8>()
}

impl Random for i8 {
    fn random(engine: &mut ChaCha8Rng) -> i8 {
        draw_i8(engine)
    }
}

/// Calls `rand::Rng::gen::<i16>` on the engine. Any `i16` may come back.
#[verifier::external_body]
fn draw_i16(engine: &mut ChaCha8Rng) -> i16 {
    engine.gen::<i16>()
}

impl Random for i16 {
    fn random(engine: &mut ChaCha8Rng) -> i16 {
        draw_i16(engine)
    }
}

/// Calls `rand::Rng::gen::<i32>` on the engine. Any `i32` may come back.
#[verifier::external_body]
fn draw_i32(engine: &mut ChaCha8Rng) -> i32 {
    engine.gen::<i32>()
}

impl Random for i32 {
    fn random(engine: &mut ChaCha8Rng) -> i32 {
        draw_i32(engine)
    }
}

/// Calls `rand::Rng::gen::<i64>` on the engine. Any `i64` may come back.
#[verifier::external_body]
fn draw_i64(engine: &mut ChaCha8Rng) -> i64 {
    engine.gen::<i64>()
}

impl Random for i64 {
    fn random(engine: &mut ChaCha8Rng) -> i64 {
        draw_i64(engine)
    }
}

/// Calls `rand::Rng::gen::<isize>` on the engine. Any `isize` may come back.
#[verifier::external_body]
fn draw_isize(engine: &mut ChaCha8Rng) -> isize {
    engine.gen::<isize>()
}

impl Random for isize {
    fn random(engine: &mut ChaCha8Rng) -> isize {
        draw_isize(engine)
    }
}

/// Calls `rand::Rng::gen::<u8>` on the engine. Any `u8` may come back.
#[verifier::external_body]
fn draw_u8(engine: &mut ChaCha8Rng) -> u8 {
    engine.gen::<u8>()
}

impl Random for u8 {
    fn random(engine: &mut ChaCha8Rng) -> u8 {
        draw_u8(engine)
    }
}

/// Calls `rand::Rng::gen::<u16>` on the engine. Any `u16` may come back.
#[verifier::external_body]
fn draw_u16(engine: &mut ChaCha8Rng) -> u16 {
    engine.gen::<u16>()
}

impl Random for u16 {
    fn random(engine: &mut ChaCha8Rng) -> u16 {
        draw_u16(engine)
    }
}

/// Calls `rand::Rng::gen::<u32>` on the engine. Any `u32` may come back.
#[verifier::external_body]
fn draw_u32(engine: &mut ChaCha8Rng) -> u32 {
    engine.gen::<u32>()
}

impl Random for u32 {
    fn random(engine: &mut ChaCha8Rng) -> u32 {
        draw_u32(engine)
    }
}

/// Calls `rand::Rng::gen::<u64>` on the engine. Any `u64` may come back.
#[verifier::external_body]
fn draw_u64(engine: &mut ChaCha8Rng) -> u64 {
    engine.gen::<u64>()
}

impl Random for u64 {
    fn random(engine: &mut ChaCha8Rng) -> u64 {
        draw_u64(engine)
    }
}

/// Calls `rand::Rng::gen::<usize>` on the engine. Any `usize` may come back.
#[verifier::external_body]
fn draw_usize(engine: &mut ChaCha8Rng) -> usize {
    engine.gen::<usize>()
}

impl Random for usize {
    fn random(engine: &mut ChaCha8Rng) -> usize {
        draw_usize(engine)
    }
}

impl<T: Random> Matrix<T> {
    /// A matrix of the given shape whose cells are drawn from `engine`, one
    /// after the other in row-major order.
    pub fn rand(rows: usize, cols: usize, engine: &mut ChaCha8Rng) -> (out: Self)
        requires
            rows != 0,
            cols != 0,
            rows * cols <= usize::MAX,
        ensures
            out.wf(),
            out@.rows == rows,
            out@.cols == cols,
    {
        let n: usize = rows * cols;
        let mut array: Vec<T> = Vec::with_capacity(n);
        let mut k: usize = 0;
        while k < n
            invariant
                k <= n,
                array@.len() == k,
            decreases n - k,
        {
            array.push(T::random(engine));
            k += 1;
        }
        Matrix { rows, cols, array }
    }
}

} // verus!
