//! The one source of chance: the thread's random number generator.

use rand::rngs::ThreadRng;
use rand::Rng;
use vstd::prelude::*;

verus! {

/// `rand::rngs::ThreadRng`, a handle to the generator of the running thread.
/// Nothing is known of its state.
#[verifier::external_type_specification]
#[verifier::external_body]
pub struct ExThreadRng(rand::rngs::ThreadRng);

/// Calls `rand::thread_rng`, which hands out the handle of the running
/// thread's generator. Nothing is claimed of it. The crate ends the program
/// where the system gives it no seed.
#[verifier::external_body]
pub(crate) fn thread_rng() -> ThreadRng {
    rand::thread_rng()
}

/// Calls `rand::Rng::gen_range` on `u64` bounds. The crate documents that it
/// panics unless `low < high`, and that the value drawn is no less than `low`
/// and less than `high`; no more is claimed, and two calls may differ.
#[verifier::external_body]
pub(crate) fn gen_range(rng: &mut ThreadRng, low: u64, high: u64) -> (r: u64)
    requires
        low < high,
    ensures
        low <= r < high,
{
    rng.gen_range(low, high)
}

} // verus!
