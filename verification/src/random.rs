use vstd::prelude::*;

verus! {

/// A byte from `rand::random`, which draws it from the generator of the
/// thread that calls. The body is not verified, and nothing is claimed of the
/// byte: two calls may differ, and every value may come.
#[verifier::external_body]
pub(crate) fn random_byte() -> (byte: u8) {
    rand::random::<u8>()
}

} // verus!
