//! Requests that a provisioning run puts to the ledger.

use crate::address::{derive_with_bump, program_address, system_program_id, Address};
use crate::error::ProvisionError;
use solana_program::instruction::AccountMeta;
use solana_program::pubkey::Pubkey;
use solana_program::system_instruction;
use vstd::prelude::*;

verus! {

/// An account that an instruction touches, and how.
#[derive(Clone, Copy, Debug, PartialEq, Eq)]
pub struct AccountRole {
    pub address: Address,
    pub is_signer: bool,
    pub is_writable: bool,
}

/// An instruction for a program of the ledger, in plain values.
#[derive(Debug, PartialEq, Eq)]
pub struct LedgerInstruction {
    pub program: Address,
    pub accounts: Vec<AccountRole>,
    pub data: Vec<u8>,
}

/// The capability that stands in for a signature of a derived address: the
/// seed and the bump seed from which the address is derived again.
#[derive(Clone, Copy, Debug, PartialEq, Eq)]
pub struct DerivationProof {
    pub seed: Address,
    pub bump: u8,
}

/// A request to create a storage account.
#[derive(Clone, Copy, Debug, PartialEq, Eq)]
pub struct CreationRequest {
    /// Who pays `lamports`.
    pub payer: Address,
    /// The address of the account to create.
    pub new_account: Address,
    /// The funding of the new account.
    pub lamports: u64,
    /// The size of the new account's buffer, in bytes.
    pub space: u64,
    /// The program that will own the new account.
    pub owner: Address,
    /// What authorizes the creation at `new_account`.
    pub authorization: DerivationProof,
}

/// The error code with which the ledger refuses to create an account
/// whose address is in use already: the system program's custom error
/// zero, as the ledger numbers the errors of programs.
pub const ACCOUNT_ALREADY_IN_USE: u64 = 0x1_0000_0000;

/// What the ledger answered to a creation request.
#[derive(Clone, Copy, Debug, PartialEq, Eq, Structural)]
pub enum CreationReply {
    /// The account now exists, zero-filled.
    Created,
    /// The ledger refused, with its error code.
    Refused { code: u64 },
}

/// The payload of the system program's instruction that creates an account
/// with the given funding, size and owner.
pub uninterp spec fn create_account_data(lamports: u64, space: u64, owner: Seq<u8>) -> Seq<u8>;

impl LedgerInstruction {
    /// Whether this is an instruction for the system program that names
    /// `payer` and then `new_account`, both as writable signers, and no
    /// other account.
    pub open spec fn is_between(self, payer: Seq<u8>, new_account: Seq<u8>) -> bool {
        &&& self.program@ == system_program_id()
        &&& self.accounts@.len() == 2
        &&& self.accounts@[0].address@ == payer
        &&& self.accounts@[1].address@ == new_account
        &&& forall|i: int| 0 <= i < 2 ==> self.accounts@[i].is_signer && self.accounts@[i].is_writable
    }
}

/// Calls `system_instruction::create_account`.
///
/// Trusted: the instruction is for the system program, names the payer and
/// the new account in this order, both as writable signers, and its payload
/// is a function of funding, size and owner alone.
#[verifier::external_body]
fn create_account(
    payer: &[u8; 32],
    new_account: &[u8; 32],
    lamports: u64,
    space: u64,
    owner: &[u8; 32],
) -> (r: LedgerInstruction)
    ensures
        r.is_between(payer@, new_account@),
        r.data@ == create_account_data(lamports, space, owner@),
{
    let (from, to) = (Pubkey::new_from_array(*payer), Pubkey::new_from_array(*new_account));
    let owner = Pubkey::new_from_array(*owner);
    let instruction = system_instruction::create_account(&from, &to, lamports, space, &owner);
    let role = |meta: &AccountMeta| AccountRole {
        address: Address { bytes: meta.pubkey.to_bytes() },
        is_signer: meta.is_signer,
        is_writable: meta.is_writable,
    };
    LedgerInstruction {
        program: Address { bytes: instruction.program_id.to_bytes() },
        accounts: instruction.accounts.iter().map(role).collect(),
        data: instruction.data,
    }
}

impl CreationReply {
    /// The error with which a run ends on a refusal with `code`: an
    /// account that exists already counts as initialized; every other
    /// refusal is passed on with its code.
    pub open spec fn refusal(code: u64) -> ProvisionError {
        if code == ACCOUNT_ALREADY_IN_USE {
            ProvisionError::AccountAlreadyInitialized
        } else {
            ProvisionError::AccountCreationFailed { code }
        }
    }

    /// The error with which a run ends on this reply, if it is a refusal.
    pub fn error(&self) -> (r: Option<ProvisionError>)
        ensures
            r == match *self {
                CreationReply::Created => None,
                CreationReply::Refused { code } => Some(CreationReply::refusal(code)),
            },
    {
        match *self {
            CreationReply::Created => None,
            CreationReply::Refused { code } => if code == ACCOUNT_ALREADY_IN_USE {
                Some(ProvisionError::AccountAlreadyInitialized)
            } else {
                Some(ProvisionError::AccountCreationFailed { code })
            },
        }
    }
}

impl DerivationProof {
    /// Whether seed and bump seed derive `account` under `program`, so
    /// that `program` may act for `account`.
    pub open spec fn authorizes_spec(self, program: Seq<u8>, account: Seq<u8>) -> bool {
        program_address(self.seed@, self.bump, program) == Some(account)
    }

    /// Checks the capability as the ledger does: by deriving the address
    /// again from seed and bump seed.
    pub fn authorizes(&self, program: &Address, account: &Address) -> (r: bool)
        ensures
            r == self.authorizes_spec(program@, account@),
    {
        match derive_with_bump(program, &self.seed, self.bump) {
            Some(address) => address.same(account),
            None => false,
        }
    }
}

impl CreationRequest {
    /// The instruction for the system program that carries out the request.
    pub fn instruction(&self) -> (r: LedgerInstruction)
        ensures
            r.is_between(self.payer@, self.new_account@),
            r.data@ == create_account_data(self.lamports, self.space, self.owner@),
    {
        create_account(
            &self.payer.bytes,
            &self.new_account.bytes,
            self.lamports,
            self.space,
            &self.owner.bytes,
        )
    }
}

} // verus!
