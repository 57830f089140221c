//! The random source.

use vstd::prelude::*;

verus! {

/// A random integer of `[min, max]`, both ends included.
///
/// Trusted: the body is `rand::Rng::gen_range` on the thread's generator with the
/// inclusive range `min..=max`. The contract claims only that the sample lies in
/// the range it was drawn from; `gen_range` panics on an empty range, which the
/// precondition leaves out.
#[verifier::external_body]
pub fn random_int_in_range(min: i32, max: i32) -> (r: i32)
    requires
        min <= max,
    ensures
        min <= r <= max,
{
    rand::Rng::gen_range(&mut rand::thread_rng(), min..=max)
}

} // verus!
