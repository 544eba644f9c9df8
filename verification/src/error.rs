//! The ways in which a provisioning run can fail.

use vstd::prelude::*;

verus! {

/// Why a provisioning run was rejected. Every rejection is final: the run
/// stops, nothing is retried and no storage is written.
#[derive(Clone, Copy, Debug, PartialEq, Eq, Structural)]
pub enum ProvisionError {
    /// Fewer than three accounts were supplied.
    MissingAccount,
    /// The third account is not the system program.
    WrongSystemProgram,
    /// The supplied storage address is not the one derived for the caller.
    InvalidSeeds,
    /// The ledger refused to create the account, for another reason than
    /// that it exists; `code` is the ledger's own error code, unchanged.
    AccountCreationFailed { code: u64 },
    /// The storage account exists already, or its record is initialized.
    AccountAlreadyInitialized,
    /// No bump seed yields an address off the curve.
    DerivationExhausted,
}

} // verus!
