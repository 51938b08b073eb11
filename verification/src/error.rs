//! The error taxonomy of the issuance protocol.

use vstd::prelude::*;

verus! {

/// Why an issuance step was refused.
///
/// None of these is recovered from: every error aborts the whole operation
/// and is surfaced to the caller with no effect retained.
#[derive(Clone, Copy, PartialEq, Eq, Structural, Debug)]
pub enum IssueError {
    /// The signer does not match the authority recorded for the mint
    /// identity.
    AuthorizationError,
    /// A metadata or edition record already exists at the derived address,
    /// or an account that is created once already exists.
    DuplicateRecordError,
    /// A ledger invariant would be broken: the holding-account balance is
    /// not exactly 1 at edition-creation time, the creator shares do not
    /// sum to 100, an edition record would precede its metadata record, or
    /// a balance would exceed the ledger's supply cap.
    InvariantViolationError,
    /// A supplied account address does not match the registry's
    /// deterministic derivation, or does not resolve to the account the
    /// call requires (a destination that is no holding account of the
    /// mint).
    AddressDerivationError,
}

} // verus!
