//! Principals and contract addresses.

use vstd::prelude::*;

verus! {

/// An on-ledger identity: an account or a deployed contract.  The host's
/// address strings are opaque to this crate, so an address is represented by
/// the number the embedding chooses for it; two addresses are the same
/// exactly when their numbers are.
#[derive(Clone, Copy, Debug, PartialEq, Eq, Hash, Structural)]
pub struct Address {
    pub id: u64,
}

impl Address {
    /// The address with the given number.
    pub fn new(id: u64) -> (r: Address)
        ensures
            r.id == id,
    {
        Address { id }
    }
}

} // verus!
