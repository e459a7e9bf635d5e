//! The source of random bytes.

use rand::Rng;
use vstd::prelude::*;

verus! {

/// Draws one byte from the thread-local generator of the `rand` crate, by
/// `rand::thread_rng().gen::<u8>()`. The generator is seeded by the
/// operating system, so nothing is claimed about the byte that comes back:
/// callers are verified for every value of it. The first call on a thread
/// panics if the operating system has no entropy to seed the generator
/// with.
#[verifier::external_body]
pub(crate) fn random_byte() -> (byte: u8) {
    rand::thread_rng().gen::<u8>()
}

} // verus!
