//! The machine's one source of chance, kept behind a single trusted call.

use vstd::prelude::*;

verus! {

/// Relies on rand::random: draws one byte from the thread-local generator.
/// Nothing is assumed of the value; every caller must hold for every byte
/// that could come back.
#[verifier::external_body]
pub(crate) fn random_byte() -> u8 {
    rand::random::<u8>()
}

} // verus!
