//! The source of randomness.

use vstd::prelude::*;
use rand::Rng;

verus! {

/// Draws a byte from `rand::thread_rng()` with `Rng::gen`. The generator is
/// seeded by the operating system, so nothing is claimed of the byte: two
/// calls may give different results, and every value of a byte can come back.
/// The call panics where the operating system gives the generator no
/// entropy, on its first use in a thread or when it reseeds.
#[verifier::external_body]
pub(crate) fn random_byte() -> (byte: u8)
{
    rand::thread_rng().gen()
}

} // verus!
