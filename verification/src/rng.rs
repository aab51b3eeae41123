//! The source of random bytes for the `Cxkk` instruction.

use vstd::prelude::*;

verus! {

/// Relies on `rand::random`: a byte sampled from the thread-local
/// generator.  Nothing is promised of the value; every caller is verified
/// for every possible byte.
#[verifier::external_body]
pub fn random_byte() -> u8 {
    rand::random()
}

} // verus!
