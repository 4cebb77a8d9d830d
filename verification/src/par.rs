//! How work on a buffer is cut into chunks for workers that run side by side.

use vstd::prelude::*;

verus! {

/// Calls `num_cpus::get`, the number of logical processors that the process
/// may use. Its documentation promises at least one; nothing else is known
/// of the number, which depends on the machine.
#[verifier::external_body]
fn logical_cpus() -> (n: usize)
    ensures
        n >= 1,
{
    num_cpus::get()
}

/// The share of each of `workers` workers in `len` cells: the whole part of
/// `len / workers`.
pub open spec fn share(len: int, workers: int) -> int {
    len / workers
}

/// The least number of cells that one worker takes when a buffer of `len`
/// cells is shared among `workers` workers.
pub fn min_chunk_len(len: usize, workers: usize) -> (chunk: usize)
    requires
        workers != 0,
    ensures
        chunk == share(len as int, workers as int),
{
    len / workers
}

/// The least number of cells that one worker takes when a buffer of `len`
/// cells is shared among as many workers as the machine has logical
/// processors. It is never more than `len`.
pub fn default_min_chunk_len(len: usize) -> (chunk: usize)
    ensures
        chunk <= len,
        exists|workers: int| workers >= 1 && chunk == #[trigger] share(len as int, workers),
{
    let workers: usize = logical_cpus();
    let chunk = min_chunk_len(len, workers);
    proof {
        assert(len as int / workers as int <= len) by (nonlinear_arith)
            requires
                workers >= 1,
                len >= 0,
        ;
        assert(chunk == share(len as int, workers as int));
    }
    chunk
}

} // verus!
