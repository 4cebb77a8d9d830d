//! The dot product: the sum of the pairwise products of two sequences.

use vstd::prelude::*;
use vstd::std_specs::ops::AddSpec;
use vstd::std_specs::ops::MulSpec;
use std::ops::Add;
use std::ops::Mul;
use crate::identities::Zero;

verus! {

/// The products `a[0] * b[0]`, ..., `a[n - 1] * b[n - 1]`, added one after the
/// other, from left to right, onto the additive identity.
pub open spec fn dot_prefix_spec<T: Zero + Add<Output = T> + Mul<Output = T>>(
    a: Seq<T>,
    b: Seq<T>,
    n: nat,
) -> T
    decreases n,
{
    if n == 0 {
        T::zero_spec()
    } else {
        dot_prefix_spec(a, b, (n - 1) as nat).add_spec(a[n - 1].mul_spec(b[n - 1]))
    }
}

/// Every multiplication and every addition that `dot_prefix_spec` makes is
/// permitted by the element type.
pub open spec fn dot_prefix_req<T: Zero + Add<Output = T> + Mul<Output = T>>(
    a: Seq<T>,
    b: Seq<T>,
    n: nat,
) -> bool
    decreases n,
{
    n == 0 || {
        &&& dot_prefix_req(a, b, (n - 1) as nat)
        &&& a[n - 1].mul_req(b[n - 1])
        &&& dot_prefix_spec(a, b, (n - 1) as nat).add_req(a[n - 1].mul_spec(b[n - 1]))
    }
}

/// The dot product of two sequences of one length.
pub open spec fn dot_spec<T: Zero + Add<Output = T> + Mul<Output = T>>(a: Seq<T>, b: Seq<T>) -> T {
    dot_prefix_spec(a, b, a.len())
}

/// The two sequences have one length and their dot product can be computed.
pub open spec fn dot_req<T: Zero + Add<Output = T> + Mul<Output = T>>(a: Seq<T>, b: Seq<T>) -> bool {
    a.len() == b.len() && dot_prefix_req(a, b, a.len())
}

/// The dot product of `a` and `b`, accumulated from left to right.
pub fn dot<T: Copy + Zero + Add<Output = T> + Mul<Output = T>>(a: &[T], b: &[T]) -> (s: T)
    requires
        T::obeys_add_spec(),
        T::obeys_mul_spec(),
        dot_req(a@, b@),
    ensures
        s == dot_spec(a@, b@),
{
    let n: usize = a.len();
    let mut acc: T = T::zero();
    let mut k: usize = 0;
    while k < n
        invariant
            T::obeys_add_spec(),
            T::obeys_mul_spec(),
            n == a@.len(),
            n == b@.len(),
            k <= n,
            dot_prefix_req(a@, b@, n as nat),
            acc == dot_prefix_spec(a@, b@, k as nat),
        decreases n - k,
    {
        proof {
            lemma_dot_prefix_req_earlier(a@, b@, (k + 1) as nat, n as nat);
        }
        acc = acc + a[k] * b[k];
        k += 1;
    }
    acc
}

/// A dot product that can be computed up to `n` can be computed up to any
/// `m <= n`.
pub proof fn lemma_dot_prefix_req_earlier<T: Zero + Add<Output = T> + Mul<Output = T>>(
    a: Seq<T>,
    b: Seq<T>,
    m: nat,
    n: nat,
)
    requires
        m <= n,
        dot_prefix_req(a, b, n),
    ensures
        dot_prefix_req(a, b, m),
    decreases n,
{
    if m < n {
        lemma_dot_prefix_req_earlier(a, b, m, (n - 1) as nat);
    }
}

} // verus!
