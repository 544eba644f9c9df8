//! Provisioning of program-derived storage accounts.
//!
//! A requester's public key, taken as the seed under a program's identity,
//! derives a storage address that has no private key. A provisioning run
//! checks that a request names that address, has the account created at
//! it, paid by the requester, and writes the requester's first record into
//! it, once.

pub mod address;
pub mod error;
pub mod ledger;
pub mod provision;
pub mod record;

pub use address::{Address, DerivedAddress};
pub use error::ProvisionError;
pub use ledger::{
    AccountRole, CreationReply, CreationRequest, DerivationProof, LedgerInstruction,
    ACCOUNT_ALREADY_IN_USE,
};
pub use provision::{Action, Event, Provisioner};
pub use record::{UserStake, INITIAL_LAMPORTS, USER_STAKE_SIZE};
