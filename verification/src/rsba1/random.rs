//! Random bytes for the identifiers that the protocol wants unpredictable.

use vstd::prelude::*;

verus! {

/// A byte from `rand::random`. Any byte may come, so nothing is claimed of it.
#[verifier::external_body]
pub(crate) fn random_byte() -> u8 {
    rand::random::<u8>()
}

} // verus!
