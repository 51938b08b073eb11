//! Issuance of a single master-edition token record on an account-based
//! ledger.
//!
//! One indivisible unit is minted into a holding account, a metadata
//! record is bound to the unit's identity, and a master-edition record
//! seals it; the three phases run in strict order with all-or-nothing
//! effect. The two external programs that own the durable state — the
//! token ledger and the metadata registry — are modeled here as a
//! verified state machine, and the registry's own pure computations
//! (record-address derivation and instruction encoding) are reached
//! through a small set of trusted declarations.

use vstd::prelude::*;

pub mod addr;
pub mod error;
pub mod issue;
pub mod ledger;
pub mod records;
pub mod registry;

verus! {

pub use crate::addr::Address;
pub use crate::error::IssueError;

} // verus!
