//! Process-wide unique node identifiers.
//!
//! An identifier is a 128-bit value, drawn at random when a node is created
//! locally, or supplied by a remote peer when a creation is replicated.
//! It is immutable thereafter and is used for all addressing in the tree.

use vstd::prelude::*;

verus! {

/// A 128-bit node identifier.
#[derive(Clone, Copy, PartialEq, Eq, Structural, Debug)]
pub struct Identifier {
    pub value: u128,
}

impl Identifier {
    /// Rebuilds an identifier from its raw value, as when replicating a
    /// creation chosen by a remote peer.
    pub fn from_u128(value: u128) -> (r: Identifier)
        ensures
            r.value == value,
    {
        Identifier { value }
    }

    /// Draws a fresh random identifier for a locally created node.
    pub fn fresh() -> Identifier {
        Identifier { value: random_id_bits() }
    }
}

/// Relies on `uuid::Uuid::new_v4` to draw a random version-4 UUID; the
/// result depends on the generator's randomness, so nothing is promised
/// of the value.
#[verifier::external_body]
fn random_id_bits() -> u128 {
    uuid::Uuid::new_v4().as_u128()
}

} // verus!
