//! Random draws, taken from the generator of the calling thread.

use vstd::prelude::*;

use rand::Rng;
use rand::rngs::ThreadRng;

verus! {

/// The handle to a thread's random number generator. Nothing is known of what it holds.
#[verifier::external_type_specification]
#[verifier::external_body]
pub struct ExThreadRng(ThreadRng);

/// Calls `rand::thread_rng`, which hands out the handle to the calling thread's generator.
/// Nothing is claimed of the handle.
#[verifier::external_body]
pub(crate) fn thread_rng() -> (rng: ThreadRng) {
    rand::thread_rng()
}

/// Calls `Rng::gen_range` for a `usize`, which the crate documents to return a value in
/// the range from `low` up to, and not including, `high`, and to panic where `low >= high`.
/// Which value of the range comes back is left open.
#[verifier::external_body]
pub(crate) fn gen_range(rng: &mut ThreadRng, low: usize, high: usize) -> (drawn: usize)
    requires
        low < high,
    ensures
        low <= drawn < high,
{
    rng.gen_range(low, high)
}

/// `count` draws from the range from 0 up to, and not including, `bound`.
pub(crate) fn draw_many(rng: &mut ThreadRng, count: usize, bound: usize) -> (draws: Vec<usize>)
    requires
        bound > 0,
    ensures
        draws@.len() == count,
        forall|i: int| 0 <= i < count ==> draws@[i] < bound,
{
    let mut draws: Vec<usize> = Vec::with_capacity(count);
    while draws.len() < count
        invariant
            bound > 0,
            draws@.len() <= count,
            forall|i: int| 0 <= i < draws@.len() ==> draws@[i] < bound,
        decreases count - draws@.len(),
    {
        let drawn: usize = gen_range(rng, 0, bound);
        draws.push(drawn);
    }
    draws
}

} // verus!
