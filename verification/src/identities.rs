//! Additive and multiplicative identities of the element types.

use vstd::prelude::*;

verus! {

/// An element type with an additive identity.
pub trait Zero: Sized {
    /// The additive identity.
    spec fn zero_spec() -> Self;

    /// Returns the additive identity.
    fn zero() -> (z: Self)
        ensures
            z == Self::zero_spec(),
    ;

    /// Tells whether `self` is the additive identity.
    fn is_zero(&self) -> (b: bool)
        ensures
            b == (*self == Self::zero_spec()),
    ;
}

/// An element type with a multiplicative identity.
pub trait One: Sized {
    /// The multiplicative identity.
    spec fn one_spec() -> Self;

    /// Returns the multiplicative identity.
    fn one() -> (o: Self)
        ensures
            o == Self::one_spec(),
    ;
}

impl Zero for i8 {
    open spec fn zero_spec() -> i8 {
        0
    }

    fn zero() -> (z: i8) {
        0
    }

    fn is_zero(&self) -> (b: bool) {
        *self == 0
    }
}

impl One for i8 {
    open spec fn one_spec() -> i8 {
        1
    }

    fn one() -> (o: i8) {
        1
    }
}

impl Zero for i16 {
    open spec fn zero_spec() -> i16 {
        0
    }

    fn zero() -> (z: i16) {
        0
    }

    fn is_zero(&self) -> (b: bool) {
        *self == 0
    }
}

impl One for i16 {
    open spec fn one_spec() -> i16 {
        1
    }

    fn one() -> (o: i16) {
        1
    }
}

impl Zero for i32 {
    open spec fn zero_spec() -> i32 {
        0
    }

    fn zero() -> (z: i32) {
        0
    }

    fn is_zero(&self) -> (b: bool) {
        *self == 0
    }
}

impl One for i32 {
    open spec fn one_spec() -> i32 {
        1
    }

    fn one() -> (o: i32) {
        1
    }
}

impl Zero for i64 {
    open spec fn zero_spec() -> i64 {
        0
    }

    fn zero() -> (z: i64) {
        0
    }

    fn is_zero(&self) -> (b: bool) {
        *self == 0
    }
}

impl One for i64 {
    open spec fn one_spec() -> i64 {
        1
    }

    fn one() -> (o: i64) {
        1
    }
}

impl Zero for isize {
    open spec fn zero_spec() -> isize {
        0
    }

    fn zero() -> (z: isize) {
        0
    }

    fn is_zero(&self) -> (b: bool) {
        *self == 0
    }
}

impl One for isize {
    open spec fn one_spec() -> isize {
        1
    }

    fn one() -> (o: isize) {
        1
    }
}

impl Zero for u8 {
    open spec fn zero_spec() -> u8 {
        0
    }

    fn zero() -> (z: u8) {
        0
    }

    fn is_zero(&self) -> (b: bool) {
        *self == 0
    }
}

impl One for u8 {
    open spec fn one_spec() -> u8 {
        1
    }

    fn one() -> (o: u8) {
        1
    }
}

impl Zero for u16 {
    open spec fn zero_spec() -> u16 {
        0
    }

    fn zero() -> (z: u16) {
        0
    }

    fn is_zero(&self) -> (b: bool) {
        *self == 0
    }
}

impl One for u16 {
    open spec fn one_spec() -> u16 {
        1
    }

    fn one() -> (o: u16) {
        1
    }
}

impl Zero for u32 {
    open spec fn zero_spec() -> u32 {
        0
    }

    fn zero() -> (z: u32) {
        0
    }

    fn is_zero(&self) -> (b: bool) {
        *self == 0
    }
}

impl One for u32 {
    open spec fn one_spec() -> u32 {
        1
    }

    fn one() -> (o: u32) {
        1
    }
}

impl Zero for u64 {
    open spec fn zero_spec() -> u64 {
        0
    }

    fn zero() -> (z: u64) {
        0
    }

    fn is_zero(&self) -> (b: bool) {
        *self == 0
    }
}

impl One for u64 {
    open spec fn one_spec() -> u64 {
        1
    }

    fn one() -> (o: u64) {
        1
    }
}

impl Zero for usize {
    open spec fn zero_spec() -> usize {
        0
    }

    fn zero() -> (z: usize) {
        0
    }

    fn is_zero(&self) -> (b: bool) {
        *self == 0
    }
}

impl One for usize {
    open spec fn one_spec() -> usize {
        1
    }

    fn one() -> (o: usize) {
        1
    }
}

} // verus!
