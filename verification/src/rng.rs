//! The randomness source of the random-byte instruction. The library takes
//! the drawn byte as an argument everywhere it reasons; only this wrapper
//! touches the generator.
use vstd::prelude::*;

verus! {

/// Relies on `rand::random::<u8>`: draws one byte from the thread-local
/// generator. Nothing is promised of the value; the engine's contracts
/// hold for every byte this may return.
#[verifier::external_body]
pub(crate) fn random_byte() -> u8 {
    rand::random::<u8>()
}

} // verus!
