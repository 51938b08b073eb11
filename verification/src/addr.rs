//! Ledger addresses.

use vstd::prelude::*;

verus! {

/// A 32-byte ledger address, held as four 64-bit little-endian words.
///
/// Every account, mint identity and authority is named by such an address.
/// This library compares addresses only for identity; their byte content is
/// never interpreted here.
#[derive(Clone, Copy, PartialEq, Eq, Structural, Debug)]
pub struct Address {
    pub w0: u64,
    pub w1: u64,
    pub w2: u64,
    pub w3: u64,
}

impl Address {
    /// A compact constructor, convenient for small test addresses.
    pub fn from_u64(x: u64) -> (r: Address)
        ensures
            r == (Address { w0: x, w1: 0u64, w2: 0u64, w3: 0u64 }),
    {
        Address { w0: x, w1: 0, w2: 0, w3: 0 }
    }
}

} // verus!
