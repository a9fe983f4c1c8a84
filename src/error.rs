//! Errors reported by the ledgers.
use vstd::prelude::*;

verus! {

/// Why an operation on the marketplace or the settlement ledger did not succeed.
#[derive(Debug, PartialEq, Eq)]
pub enum LedgerError {
    /// The contract, credit or transaction named does not exist.
    NotFound,
    /// The record exists but its current status forbids the operation.
    InvalidTransition,
    /// No settlement collaborator has been registered.
    NotConfigured,
    /// The settlement collaborator refused the transfer, for the reason given.
    SettlementFailed(String),
}

impl Clone for LedgerError {
    fn clone(&self) -> (r: Self)
        ensures
            r == *self,
    {
        match self {
            LedgerError::NotFound => LedgerError::NotFound,
            LedgerError::InvalidTransition => LedgerError::InvalidTransition,
            LedgerError::NotConfigured => LedgerError::NotConfigured,
            LedgerError::SettlementFailed(reason) => LedgerError::SettlementFailed(reason.clone()),
        }
    }
}

} // verus!
