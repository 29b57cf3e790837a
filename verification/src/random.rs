//! The source of random numbers: the `rand` crate, whose code is taken on
//! trust. What is assumed of it is stated here and nowhere else.
use vstd::prelude::*;

verus! {

/// The thread-local generator of `rand`. Nothing is known of its state.
#[verifier::external_type_specification]
#[verifier::external_body]
pub struct ExThreadRng(rand::ThreadRng);

/// Calls `rand::thread_rng`, which hands out the generator of the current
/// thread. Nothing is claimed of the generator. `rand` seeds it from the
/// operating system when a thread first asks for it, and gives up with a
/// panic if the system has no entropy to offer.
#[verifier::external_body]
pub(crate) fn thread_rng() -> rand::ThreadRng {
    rand::thread_rng()
}

/// Calls `rand::Rng::gen_range`, which draws an integer from `low` up to, but
/// not including, `high`. Which one it draws is not known; two calls need not
/// agree. `gen_range` panics unless `low` is less than `high`.
#[verifier::external_body]
pub(crate) fn gen_range(rng: &mut rand::ThreadRng, low: i32, high: i32) -> (n: i32)
    requires
        low < high,
    ensures
        low <= n < high,
{
    rand::Rng::gen_range(rng, low, high)
}

} // verus!
