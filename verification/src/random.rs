use vstd::prelude::*;

verus! {

/// Draws one byte from `rand::random`, the thread-local generator of the
/// `rand` crate. Nothing is claimed of the value: any byte may come back,
/// and two calls may differ.
#[verifier::external_body]
pub(crate) fn random_byte() -> (b: u8) {
    rand::random::<u8>()
}

} // verus!
