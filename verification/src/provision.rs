//! One provisioning run, as a state machine.
//!
//! The run decides; its host acts. `Provisioner::start` checks the request
//! and names the first thing to do. The host does it (asks the rent
//! schedule, sends the creation request, reads or writes the account's
//! buffer) and reports what came of it as an `Event`; `Provisioner::step`
//! answers with the next `Action`, until that is `Action::Finish`.

use crate::address::{
    derivation, law_derivation_is_first_from_top, lemma_address_by_bytes, on_curve,
    system_program_id, Address, DerivedAddress,
};
use crate::error::ProvisionError;
use crate::ledger::{CreationReply, CreationRequest, DerivationProof, ACCOUNT_ALREADY_IN_USE};
use crate::record::{UserStake, USER_STAKE_SIZE};
use vstd::prelude::*;

verus! {

/// What the host reports back to a run.
#[derive(Debug, PartialEq, Eq)]
pub enum Event {
    /// The rent-exemption cost of the size that was asked for.
    Rent { lamports: u64 },
    /// The ledger's answer to the creation request.
    Creation(CreationReply),
    /// The bytes of the storage account's buffer.
    Record { bytes: Vec<u8> },
    /// The record was written to the front of the buffer.
    Stored,
}

/// An event as contracts see it: with the bytes of a buffer as a sequence.
pub enum EventView {
    Rent { lamports: u64 },
    Creation(CreationReply),
    Record { bytes: Seq<u8> },
    Stored,
}

impl View for Event {
    type V = EventView;

    open spec fn view(&self) -> EventView {
        match *self {
            Event::Rent { lamports } => EventView::Rent { lamports },
            Event::Creation(reply) => EventView::Creation(reply),
            Event::Record { bytes } => EventView::Record { bytes: bytes@ },
            Event::Stored => EventView::Stored,
        }
    }
}

/// What a run asks of its host.
#[derive(Clone, Copy, Debug, PartialEq, Eq)]
pub enum Action {
    /// Give the rent-exemption cost of a buffer of `size` bytes.
    QueryRent { size: usize },
    /// Send the creation request to the ledger.
    Create(CreationRequest),
    /// Read the buffer of `account`.
    ReadRecord { account: Address },
    /// Write `record`, encoded, to the front of the buffer of `account`.
    Store { account: Address, record: UserStake },
    /// Stop, with this result.
    Finish(Result<(), ProvisionError>),
}

/// Where a run stands.
#[derive(Clone, Copy, Debug, PartialEq, Eq)]
pub enum Provisioner {
    /// The request is valid; the rent-exemption cost is awaited.
    AwaitingRent { caller: Address, target: DerivedAddress, program: Address },
    /// The creation request is out.
    AwaitingCreation { account: Address },
    /// The account was created; its buffer is awaited.
    AwaitingRecord { account: Address },
    /// The record is being stored.
    AwaitingStore,
    /// The run is over.
    Finished,
}

/// The outcome of checking a request: the bump seed of the caller's storage
/// address, or the first check that fails. The accounts are, in this order,
/// the caller, the storage account and the system program; accounts behind
/// these three are not looked at.
pub open spec fn validation(program: Seq<u8>, accounts: Seq<Address>) -> Result<
    u8,
    ProvisionError,
> {
    if accounts.len() < 3 {
        Err(ProvisionError::MissingAccount)
    } else if accounts[2]@ != system_program_id() {
        Err(ProvisionError::WrongSystemProgram)
    } else {
        match derivation(program, accounts[0]@) {
            Err(e) => Err(e),
            Ok((address, bump)) => if accounts[1]@ != address {
                Err(ProvisionError::InvalidSeeds)
            } else {
                Ok(bump)
            },
        }
    }
}

/// The authorization check: whoever asks for storage at `supplied` gets it
/// only where `supplied` is the address derived for them. Any other
/// address is rejected with `InvalidSeeds`.
pub fn confirm_target(derived: DerivedAddress, supplied: &Address) -> (r: Result<
    DerivedAddress,
    ProvisionError,
>)
    ensures
        r == if derived.address@ == supplied@ {
            Ok::<DerivedAddress, ProvisionError>(derived)
        } else {
            Err::<DerivedAddress, ProvisionError>(ProvisionError::InvalidSeeds)
        },
{
    if derived.address.same(supplied) {
        Ok(derived)
    } else {
        Err(ProvisionError::InvalidSeeds)
    }
}

/// Checks a request to provision storage for the caller `accounts[0]` at
/// `accounts[1]` under the program `program_id`. On success the result is
/// the storage address with its bump seed.
pub fn validate(program_id: &Address, accounts: &[Address]) -> (r: Result<
    DerivedAddress,
    ProvisionError,
>)
    ensures
        match r {
            Ok(d) => validation(program_id@, accounts@) == Ok::<u8, ProvisionError>(d.bump)
                && d.address == accounts@[1] && !on_curve(d.address@) && (DerivationProof {
                seed: accounts@[0],
                bump: d.bump,
            }).authorizes_spec(program_id@, d.address@),
            Err(e) => validation(program_id@, accounts@) == Err::<u8, ProvisionError>(e),
        },
{
    if accounts.len() < 3 {
        return Err(ProvisionError::MissingAccount);
    }
    if !accounts[2].is_system_program() {
        return Err(ProvisionError::WrongSystemProgram);
    }
    match crate::address::derive(program_id, &accounts[0]) {
        Err(e) => Err(e),
        Ok(derived) => {
            proof {
                if derived.address@ == accounts@[1]@ {
                    lemma_address_by_bytes(derived.address, accounts@[1]);
                }
                law_derivation_is_first_from_top(program_id@, accounts@[0]@);
            }
            confirm_target(derived, &accounts[1])
        },
    }
}

impl Provisioner {
    /// The state and the first action of a run on the given request.
    pub open spec fn start_spec(program: Address, accounts: Seq<Address>) -> (Provisioner, Action) {
        match validation(program@, accounts) {
            Err(e) => (Provisioner::Finished, Action::Finish(Err(e))),
            Ok(bump) => (
                Provisioner::AwaitingRent {
                    caller: accounts[0],
                    target: DerivedAddress { address: accounts[1], bump },
                    program,
                },
                Action::QueryRent { size: USER_STAKE_SIZE },
            ),
        }
    }

    /// The state and the action that follow `event`, where the run awaits
    /// such an event; `None` where it does not, or where the buffer that
    /// the event brings holds no record.
    pub open spec fn step_spec(self, event: EventView) -> Option<(Provisioner, Action)> {
        match (self, event) {
            (Provisioner::AwaitingRent { caller, target, program }, EventView::Rent { lamports }) => Some(
                (
                    Provisioner::AwaitingCreation { account: target.address },
                    Action::Create(
                        CreationRequest {
                            payer: caller,
                            new_account: target.address,
                            lamports,
                            space: USER_STAKE_SIZE as u64,
                            owner: program,
                            authorization: DerivationProof { seed: caller, bump: target.bump },
                        },
                    ),
                ),
            ),
            (Provisioner::AwaitingCreation { account }, EventView::Creation(reply)) => Some(
                match reply {
                    CreationReply::Created => (
                        Provisioner::AwaitingRecord { account },
                        Action::ReadRecord { account },
                    ),
                    CreationReply::Refused { code } => (
                        Provisioner::Finished,
                        Action::Finish(Err(CreationReply::refusal(code))),
                    ),
                },
            ),
            (Provisioner::AwaitingRecord { account }, EventView::Record { bytes }) => {
                match UserStake::spec_decode(bytes) {
                    None => None,
                    Some(record) => Some(
                        if record.is_initialized {
                            (
                                Provisioner::Finished,
                                Action::Finish(Err(ProvisionError::AccountAlreadyInitialized)),
                            )
                        } else {
                            (
                                Provisioner::AwaitingStore,
                                Action::Store { account, record: UserStake::initialized() },
                            )
                        },
                    ),
                }
            },
            (Provisioner::AwaitingStore, EventView::Stored) => Some(
                (Provisioner::Finished, Action::Finish(Ok(()))),
            ),
            _ => None,
        }
    }

    /// Starts a run: checks the request and names the first action.
    pub fn start(program_id: &Address, accounts: &[Address]) -> (r: (Provisioner, Action))
        ensures
            r == Provisioner::start_spec(*program_id, accounts@),
    {
        match validate(program_id, accounts) {
            Err(e) => (Provisioner::Finished, Action::Finish(Err(e))),
            Ok(target) => (
                Provisioner::AwaitingRent { caller: accounts[0], target, program: *program_id },
                Action::QueryRent { size: USER_STAKE_SIZE },
            ),
        }
    }

    /// Takes the run one step further on `event`.
    pub fn step(self, event: Event) -> (r: Option<(Provisioner, Action)>)
        ensures
            r == self.step_spec(event@),
    {
        match (self, event) {
            (Provisioner::AwaitingRent { caller, target, program }, Event::Rent { lamports }) => {
                let request = CreationRequest {
                    payer: caller,
                    new_account: target.address,
                    lamports,
                    space: USER_STAKE_SIZE as u64,
                    owner: program,
                    authorization: DerivationProof { seed: caller, bump: target.bump },
                };
                Some((Provisioner::AwaitingCreation { account: target.address }, Action::Create(request)))
            },
            (Provisioner::AwaitingCreation { account }, Event::Creation(reply)) => {
                match reply.error() {
                    None => Some(
                        (Provisioner::AwaitingRecord { account }, Action::ReadRecord { account }),
                    ),
                    Some(e) => Some((Provisioner::Finished, Action::Finish(Err(e)))),
                }
            },
            (Provisioner::AwaitingRecord { account }, Event::Record { bytes }) => {
                match UserStake::decode(bytes.as_slice()) {
                    None => None,
                    Some(mut record) => match record.initialize() {
                        Err(e) => Some((Provisioner::Finished, Action::Finish(Err(e)))),
                        Ok(()) => Some(
                            (Provisioner::AwaitingStore, Action::Store { account, record }),
                        ),
                    },
                }
            },
            (Provisioner::AwaitingStore, Event::Stored) => Some(
                (Provisioner::Finished, Action::Finish(Ok(()))),
            ),
            _ => None,
        }
    }
}

/// Only the address derived for the caller can be provisioned: a request
/// with three accounts and the system program in the third place, for a
/// caller whose address derives, is rejected with `InvalidSeeds` whenever
/// its storage address is any other than the derived one.
pub proof fn law_foreign_address_rejected(program: Address, accounts: Seq<Address>)
    requires
        accounts.len() >= 3,
        accounts[2]@ == system_program_id(),
        derivation(program@, accounts[0]@) is Ok,
        accounts[1]@ != derivation(program@, accounts[0]@)->Ok_0.0,
    ensures
        Provisioner::start_spec(program, accounts) == (
            Provisioner::Finished,
            Action::Finish(Err(ProvisionError::InvalidSeeds)),
        ),
{
}

/// A run gets past its checks only for the derived address, and then asks
/// for the cost of exactly one record.
pub proof fn law_start_accepts_derived_only(program: Address, accounts: Seq<Address>)
    requires
        !(Provisioner::start_spec(program, accounts).1 is Finish),
    ensures
        accounts.len() >= 3,
        derivation(program@, accounts[0]@) is Ok,
        accounts[1]@ == derivation(program@, accounts[0]@)->Ok_0.0,
        Provisioner::start_spec(program, accounts).1 == (Action::QueryRent { size: 9 }),
{
}

/// The creation request of a run carries a valid capability: the caller's
/// seed and the bump seed derive the new account under the program that
/// will own it. The account named is the one that the request supplied,
/// and the caller pays.
pub proof fn law_request_is_authorized(program: Address, accounts: Seq<Address>, lamports: u64)
    requires
        Provisioner::start_spec(program, accounts).1 is QueryRent,
    ensures
        Provisioner::start_spec(program, accounts).0.step_spec(EventView::Rent { lamports })
            matches Some((_, Action::Create(request))) && request.authorization.authorizes_spec(
            request.owner@,
            request.new_account@,
        ) && request.payer == accounts[0] && request.new_account == accounts[1] && request.owner
            == program && request.authorization.seed == accounts[0],
{
    law_derivation_is_first_from_top(program@, accounts[0]@);
}

/// The account is created with a buffer of exactly nine bytes, the length
/// of a stored record, paid by the caller with exactly the cost that the
/// rent schedule gave, owned by the program and authorized by the caller's
/// seed and bump seed.
pub proof fn law_exact_sizing(
    caller: Address,
    target: DerivedAddress,
    program: Address,
    lamports: u64,
)
    ensures
        UserStake::initialized().spec_encode().len() == 9,
        (Provisioner::AwaitingRent { caller, target, program }).step_spec(
            EventView::Rent { lamports },
        ) == Some(
            (
                Provisioner::AwaitingCreation { account: target.address },
                Action::Create(
                    CreationRequest {
                        payer: caller,
                        new_account: target.address,
                        lamports,
                        space: 9,
                        owner: program,
                        authorization: DerivationProof { seed: caller, bump: target.bump },
                    },
                ),
            ),
        ),
{
}

/// The course of a run that succeeds. For a request that passes the
/// checks, whatever the rent schedule answers, where the ledger creates
/// the account and its buffer is zero-filled and long enough for a record:
/// the run asks for the cost of nine bytes, requests the creation with that
/// funding and that size, reads the buffer of the supplied address, stores
/// the initialized record there and ends with success.
pub proof fn law_first_provision(
    program: Address,
    accounts: Seq<Address>,
    lamports: u64,
    buffer: Seq<u8>,
)
    requires
        validation(program@, accounts) is Ok,
        buffer.len() >= USER_STAKE_SIZE,
        forall|i: int| 0 <= i < buffer.len() ==> buffer[i] == 0,
    ensures
        ({
            let (s0, a0) = Provisioner::start_spec(program, accounts);
            &&& a0 == Action::QueryRent { size: 9 }
            &&& s0.step_spec(EventView::Rent { lamports }) matches Some(
                (s1, Action::Create(request)),
            )
            &&& request.lamports == lamports
            &&& request.space == 9
            &&& request.new_account == accounts[1]
            &&& s1.step_spec(EventView::Creation(CreationReply::Created)) matches Some((s2, read))
            &&& read == Action::ReadRecord { account: accounts[1] }
            &&& s2.step_spec(EventView::Record { bytes: buffer }) matches Some((s3, store))
            &&& store == Action::Store {
                account: accounts[1],
                record: UserStake { is_initialized: true, lamports: 42 },
            }
            &&& s3.step_spec(EventView::Stored) == Some(
                (Provisioner::Finished, Action::Finish(Ok(()))),
            )
        }),
{
    crate::record::law_zero_filled_is_blank(buffer);
}

/// Storage is provisioned once. A run that reads a buffer `before` whose
/// record is not initialized stores the initialized record; the buffer is
/// then `after`, of the same length. A later run for the same address ends
/// with `AccountAlreadyInitialized` and stores nothing: at the creation
/// step, where the ledger finds the address in use, and also at the record
/// step, where it reads `after`.
pub proof fn law_provisioned_once(account: Address, before: Seq<u8>)
    requires
        UserStake::spec_decode(before) matches Some(record) && !record.is_initialized,
    ensures
        ({
            let after = UserStake::initialized().stored_in(before);
            let rejected = Some(
                (
                    Provisioner::Finished,
                    Action::Finish(Err(ProvisionError::AccountAlreadyInitialized)),
                ),
            );
            &&& (Provisioner::AwaitingRecord { account }).step_spec(
                EventView::Record { bytes: before },
            ) == Some(
                (
                    Provisioner::AwaitingStore,
                    Action::Store { account, record: UserStake::initialized() },
                ),
            )
            &&& after.len() == before.len()
            &&& (Provisioner::AwaitingCreation { account }).step_spec(
                EventView::Creation(CreationReply::Refused { code: ACCOUNT_ALREADY_IN_USE }),
            ) == rejected
            &&& (Provisioner::AwaitingRecord { account }).step_spec(
                EventView::Record { bytes: after },
            ) == rejected
        }),
{
    crate::record::law_stored_record_reads_back(UserStake::initialized(), before);
}

/// A run stores only the initialized record, only into the storage
/// account that was created for it, and only after it has read a record
/// there that was not initialized.
pub proof fn law_single_store(state: Provisioner, event: EventView)
    requires
        state.step_spec(event) matches Some((_, action)) && action is Store,
    ensures
        state matches Provisioner::AwaitingRecord { account } && event matches EventView::Record {
            bytes,
        } && UserStake::spec_decode(bytes) matches Some(record) && !record.is_initialized
            && state.step_spec(event) == Some(
            (
                Provisioner::AwaitingStore,
                Action::Store { account, record: UserStake::initialized() },
            ),
        ),
{
}

/// A run that has finished takes no further step.
pub proof fn law_finished_is_final(event: EventView)
    ensures
        Provisioner::Finished.step_spec(event) is None,
{
}

} // verus!
