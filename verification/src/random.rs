//! The machine's source of random bytes.

use vstd::prelude::*;

verus! {

/// A byte from `rand::random`, which draws it from the `rand` crate's
/// thread-local generator. Nothing is claimed of the byte: every value of
/// `u8` may come back, and two calls may differ.
#[verifier::external_body]
pub(crate) fn random_byte() -> (byte: u8) {
    rand::random()
}

} // verus!
