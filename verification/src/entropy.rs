//! The machine's only source of randomness.

use vstd::prelude::*;

verus! {

/// Draws one byte from `rand::random::<u8>()`, which reads the thread-local
/// generator of the `rand` crate.
///
/// Nothing is claimed of the value: every byte is a possible outcome, and two
/// calls need not agree. The generator is seeded from the operating system
/// on a thread's first draw, and `rand` panics there if the system has no
/// entropy to give; nothing a caller passes can bring that about or prevent it.
#[verifier::external_body]
pub(crate) fn random_byte() -> (byte: u8) {
    rand::random::<u8>()
}

} // verus!
