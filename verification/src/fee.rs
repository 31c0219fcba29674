//! Where the fee of a swap comes from when the caller names none.

use vstd::prelude::*;
use rand::Rng;

verus! {

/// Draws a fee from the closed band `min_fee..=max_fee`.
///
/// Trusted: the body is `rand::Rng::gen_range` on the generator that
/// `rand::thread_rng` hands out, called with the inclusive range of the two
/// arguments. `gen_range` panics on an empty range, which `requires` rules
/// out, and returns a value of the range. Nothing more is claimed: which
/// value comes back differs from call to call. `thread_rng` panics where the
/// operating system gives it no entropy to seed its generator; no `requires`
/// can rule that out.
#[verifier::external_body]
pub(crate) fn sample_fee(min_fee: u64, max_fee: u64) -> (fee: u64)
    requires
        min_fee <= max_fee,
    ensures
        min_fee <= fee <= max_fee,
{
    rand::thread_rng().gen_range(min_fee..=max_fee)
}

} // verus!
