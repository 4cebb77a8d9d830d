//! What the laws of matrix arithmetic ask of the element type, and the proof
//! that the integer types provide it.

use vstd::prelude::*;
use vstd::std_specs::ops::AddSpec;
use vstd::std_specs::ops::MulSpec;
use vstd::std_specs::ops::NegSpec;
use std::ops::Add;
use std::ops::Mul;
use std::ops::Neg;
use crate::identities::One;
use crate::identities::Zero;
use crate::ops::minmax::lawful_order;
use crate::ops::minmax::total_order;

verus! {

/// Adding the additive identity, on either side, is always permitted and
/// changes nothing.
pub open spec fn zero_is_neutral<T: Zero + Add<Output = T>>() -> bool {
    &&& forall|x: T|
        #![trigger x.add_req(T::zero_spec())]
        #![trigger x.add_spec(T::zero_spec())]
        x.add_req(T::zero_spec()) && x.add_spec(T::zero_spec()) == x
    &&& forall|x: T|
        #![trigger T::zero_spec().add_req(x)]
        #![trigger T::zero_spec().add_spec(x)]
        T::zero_spec().add_req(x) && T::zero_spec().add_spec(x) == x
}

/// Multiplying by the multiplicative identity, on either side, is always
/// permitted and changes nothing; multiplying by the additive identity, on
/// either side, is always permitted and gives the additive identity.
pub open spec fn one_is_neutral<T: Zero + One + Mul<Output = T>>() -> bool {
    &&& forall|x: T|
        #![trigger x.mul_req(T::one_spec())]
        #![trigger x.mul_spec(T::one_spec())]
        x.mul_req(T::one_spec()) && x.mul_spec(T::one_spec()) == x
    &&& forall|x: T|
        #![trigger T::one_spec().mul_req(x)]
        #![trigger T::one_spec().mul_spec(x)]
        T::one_spec().mul_req(x) && T::one_spec().mul_spec(x) == x
    &&& forall|x: T|
        #![trigger x.mul_req(T::zero_spec())]
        #![trigger x.mul_spec(T::zero_spec())]
        x.mul_req(T::zero_spec()) && x.mul_spec(T::zero_spec()) == T::zero_spec()
    &&& forall|x: T|
        #![trigger T::zero_spec().mul_req(x)]
        #![trigger T::zero_spec().mul_spec(x)]
        T::zero_spec().mul_req(x) && T::zero_spec().mul_spec(x) == T::zero_spec()
}

/// A value that can be negated can be added to its negation, and the sum is
/// the additive identity.
pub open spec fn negation_cancels<T: Zero + Add<Output = T> + Neg<Output = T>>() -> bool {
    forall|x: T|
        #![trigger x.neg_spec()]
        x.neg_req() ==> x.add_req(x.neg_spec()) && x.add_spec(x.neg_spec()) == T::zero_spec()
}

/// `i8` has a neutral zero and a neutral one.
pub proof fn lemma_i8_identities()
    ensures
        zero_is_neutral::<i8>(),
        one_is_neutral::<i8>(),
{
}

/// `i16` has a neutral zero and a neutral one.
pub proof fn lemma_i16_identities()
    ensures
        zero_is_neutral::<i16>(),
        one_is_neutral::<i16>(),
{
}

/// `i32` has a neutral zero and a neutral one.
pub proof fn lemma_i32_identities()
    ensures
        zero_is_neutral::<i32>(),
        one_is_neutral::<i32>(),
{
}

/// `i64` has a neutral zero and a neutral one.
pub proof fn lemma_i64_identities()
    ensures
        zero_is_neutral::<i64>(),
        one_is_neutral::<i64>(),
{
}

/// `isize` has a neutral zero and a neutral one.
pub proof fn lemma_isize_identities()
    ensures
        zero_is_neutral::<isize>(),
        one_is_neutral::<isize>(),
{
}

/// `u8` has a neutral zero and a neutral one.
pub proof fn lemma_u8_identities()
    ensures
        zero_is_neutral::<u8>(),
        one_is_neutral::<u8>(),
{
}

/// `u16` has a neutral zero and a neutral one.
pub proof fn lemma_u16_identities()
    ensures
        zero_is_neutral::<u16>(),
        one_is_neutral::<u16>(),
{
}

/// `u32` has a neutral zero and a neutral one.
pub proof fn lemma_u32_identities()
    ensures
        zero_is_neutral::<u32>(),
        one_is_neutral::<u32>(),
{
}

/// `u64` has a neutral zero and a neutral one.
pub proof fn lemma_u64_identities()
    ensures
        zero_is_neutral::<u64>(),
        one_is_neutral::<u64>(),
{
}

/// `usize` has a neutral zero and a neutral one.
pub proof fn lemma_usize_identities()
    ensures
        zero_is_neutral::<usize>(),
        one_is_neutral::<usize>(),
{
}

/// In `i8` a value and its negation cancel.
pub proof fn lemma_i8_negation()
    ensures
        negation_cancels::<i8>(),
{
}

/// In `i16` a value and its negation cancel.
pub proof fn lemma_i16_negation()
    ensures
        negation_cancels::<i16>(),
{
}

/// In `i32` a value and its negation cancel.
pub proof fn lemma_i32_negation()
    ensures
        negation_cancels::<i32>(),
{
}

/// In `i64` a value and its negation cancel.
pub proof fn lemma_i64_negation()
    ensures
        negation_cancels::<i64>(),
{
}

/// In `isize` a value and its negation cancel.
pub proof fn lemma_isize_negation()
    ensures
        negation_cancels::<isize>(),
{
}

/// The ordering of `i8` is a strict total order with lawful comparisons.
pub proof fn lemma_i8_order()
    ensures
        lawful_order::<i8>(),
        total_order::<i8>(),
{
}

/// The ordering of `i16` is a strict total order with lawful comparisons.
pub proof fn lemma_i16_order()
    ensures
        lawful_order::<i16>(),
        total_order::<i16>(),
{
}

/// The ordering of `i32` is a strict total order with lawful comparisons.
pub proof fn lemma_i32_order()
    ensures
        lawful_order::<i32>(),
        total_order::<i32>(),
{
}

/// The ordering of `i64` is a strict total order with lawful comparisons.
pub proof fn lemma_i64_order()
    ensures
        lawful_order::<i64>(),
        total_order::<i64>(),
{
}

/// The ordering of `isize` is a strict total order with lawful comparisons.
pub proof fn lemma_isize_order()
    ensures
        lawful_order::<isize>(),
        total_order::<isize>(),
{
}

/// The ordering of `u8` is a strict total order with lawful comparisons.
pub proof fn lemma_u8_order()
    ensures
        lawful_order::<u8>(),
        total_order::<u8>(),
{
}

/// The ordering of `u16` is a strict total order with lawful comparisons.
pub proof fn lemma_u16_order()
    ensures
        lawful_order::<u16>(),
        total_order::<u16>(),
{
}

/// The ordering of `u32` is a strict total order with lawful comparisons.
pub proof fn lemma_u32_order()
    ensures
        lawful_order::<u32>(),
        total_order::<u32>(),
{
}

/// The ordering of `u64` is a strict total order with lawful comparisons.
pub proof fn lemma_u64_order()
    ensures
        lawful_order::<u64>(),
        total_order::<u64>(),
{
}

/// The ordering of `usize` is a strict total order with lawful comparisons.
pub proof fn lemma_usize_order()
    ensures
        lawful_order::<usize>(),
        total_order::<usize>(),
{
}

} // verus!
