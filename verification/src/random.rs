//! The one source of chance: the thread-local generator of the `rand` crate.
//!
//! Nothing in this module is proved. Each item states what the outside
//! function promises whatever numbers the generator hands out, and the rest of
//! the crate is verified against these statements alone.

use rand::rngs::ThreadRng;
use rand::seq::SliceRandom;
use vstd::prelude::*;

verus! {

/// `rand::rngs::ThreadRng`, carried through as an opaque handle.
#[verifier::external_type_specification]
#[verifier::external_body]
pub struct ExThreadRng(ThreadRng);

/// `rand::thread_rng` hands out the handle to the generator of the current
/// thread. Nothing is claimed of the handle. The outside function takes no
/// argument; it panics where the system cannot seed the generator.
pub assume_specification[ rand::thread_rng ]() -> (rng: ThreadRng);

/// `rand::seq::SliceRandom::shuffle` on a slice of `u32`.
///
/// The outside function walks the slice from its end and exchanges each slot
/// with one at or before it, so what comes back holds the same values, each
/// as often as before. Which arrangement comes back is left open.
#[verifier::external_body]
pub(crate) fn shuffle_values(values: &mut Vec<u32>, rng: &mut ThreadRng)
    ensures
        final(values)@.to_multiset() == old(values)@.to_multiset(),
{
    values.shuffle(rng);
}

} // verus!
