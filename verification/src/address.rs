//! Ledger addresses and the derivation of keyless storage addresses.
//!
//! A storage address is derived from a seed (the requester's public key)
//! under a namespace root (the identity of the controlling program). For a
//! bump seed, the hash of seed, bump seed, root and a fixed marker is a
//! candidate; it is an address only where it is no point of the ed25519
//! curve, so that no private key for it exists. Derivation takes the
//! greatest bump seed that gives an address.

use crate::error::ProvisionError;
use solana_program::pubkey::Pubkey;
use solana_program::system_program;
use vstd::prelude::*;

verus! {

/// A ledger address: the public key of a requester, the identity of a
/// program, or a derived storage address.
#[derive(Clone, Copy, Debug, PartialEq, Eq)]
pub struct Address {
    pub bytes: [u8; 32],
}

impl View for Address {
    type V = Seq<u8>;

    open spec fn view(&self) -> Seq<u8> {
        self.bytes@
    }
}

/// A derived storage address together with the bump seed that produced it.
#[derive(Clone, Copy, Debug, PartialEq, Eq)]
pub struct DerivedAddress {
    pub address: Address,
    pub bump: u8,
}

/// The address that the seeds `seed` and `[bump]` give under `program`, or
/// `None` where their hash is a point of the curve.
pub uninterp spec fn program_address(seed: Seq<u8>, bump: u8, program: Seq<u8>) -> Option<Seq<u8>>;

/// Whether `address` encodes a point of the ed25519 curve, that is, whether
/// a private key for it can exist.
pub uninterp spec fn on_curve(address: Seq<u8>) -> bool;

/// The identity of the system program: thirty-two zero bytes.
pub open spec fn system_program_id() -> Seq<u8> {
    Seq::new(32, |i: int| 0u8)
}

/// Whether `bump` is the bump seed that derivation picks for `seed` under
/// `program`: the first one, counting down from 255 to 1, that gives an
/// address.
pub open spec fn is_canonical_bump(seed: Seq<u8>, program: Seq<u8>, bump: u8) -> bool {
    &&& bump >= 1
    &&& program_address(seed, bump, program) is Some
    &&& forall|higher: u8| bump < higher ==> program_address(seed, higher, program) is None
}

/// Whether any bump seed from 1 to 255 gives an address.
pub open spec fn derivable(seed: Seq<u8>, program: Seq<u8>) -> bool {
    exists|bump: u8| is_canonical_bump(seed, program, bump)
}

/// The derived address and its bump seed, as a function of the two
/// identities.
pub open spec fn derivation(namespace_root: Seq<u8>, seed: Seq<u8>) -> Result<
    (Seq<u8>, u8),
    ProvisionError,
> {
    if derivable(seed, namespace_root) {
        let bump = choose|bump: u8| is_canonical_bump(seed, namespace_root, bump);
        Ok((program_address(seed, bump, namespace_root)->Some_0, bump))
    } else {
        Err(ProvisionError::DerivationExhausted)
    }
}

/// Calls `Pubkey::try_find_program_address` with `seed` as the only seed.
///
/// Trusted: the search tries the bump seeds from 255 down to 1 as a second
/// seed with `Pubkey::create_program_address`, and returns the first
/// address that comes of it, with its bump seed; `None` where none does.
/// That address is no point of the curve.
#[verifier::external_body]
fn find_program_address(seed: &[u8; 32], program: &[u8; 32]) -> (r: Option<([u8; 32], u8)>)
    ensures
        match r {
            Some((address, bump)) => is_canonical_bump(seed@, program@, bump) && program_address(
                seed@,
                bump,
                program@,
            ) == Some(address@) && !on_curve(address@),
            None => forall|bump: u8| bump >= 1 ==> program_address(seed@, bump, program@) is None,
        },
{
    let program_id = Pubkey::new_from_array(*program);
    let found = Pubkey::try_find_program_address(&[&seed[..]], &program_id);
    found.map(|(address, bump)| (address.to_bytes(), bump))
}

/// Calls `Pubkey::create_program_address` with the seeds `seed` and
/// `[bump]`.
///
/// Trusted: the result is a function of the three arguments alone, and an
/// address that is returned is no point of the curve.
#[verifier::external_body]
fn create_program_address(seed: &[u8; 32], bump: u8, program: &[u8; 32]) -> (r: Option<[u8; 32]>)
    ensures
        match r {
            Some(address) => program_address(seed@, bump, program@) == Some(address@) && !on_curve(
                address@,
            ),
            None => program_address(seed@, bump, program@) is None,
        },
{
    let program_id = Pubkey::new_from_array(*program);
    let created = Pubkey::create_program_address(&[&seed[..], &[bump]], &program_id);
    created.ok().map(|address| address.to_bytes())
}

/// Calls `Pubkey::is_on_curve`.
///
/// Trusted: the result is a function of the address bytes alone.
#[verifier::external_body]
fn is_curve_point(address: &[u8; 32]) -> (r: bool)
    ensures
        r == on_curve(address@),
{
    Pubkey::new_from_array(*address).is_on_curve()
}

/// Calls `system_program::check_id`.
///
/// Trusted: the system program's identity is the all-zero address.
#[verifier::external_body]
fn is_system_program_id(address: &[u8; 32]) -> (r: bool)
    ensures
        r == (address@ == system_program_id()),
{
    system_program::check_id(&Pubkey::new_from_array(*address))
}

impl Address {
    /// Whether the two addresses hold the same bytes.
    pub fn same(&self, other: &Address) -> (r: bool)
        ensures
            r == (self@ == other@),
    {
        let mut i: usize = 0;
        while i < 32
            invariant
                i <= 32,
                forall|j: int| 0 <= j < i ==> self.bytes@[j] == other.bytes@[j],
            decreases 32 - i,
        {
            if self.bytes[i] != other.bytes[i] {
                return false;
            }
            i += 1;
        }
        assert(self@ =~= other@);
        true
    }

    /// Whether a private key for this address can exist.
    pub fn is_on_curve(&self) -> (r: bool)
        ensures
            r == on_curve(self@),
    {
        is_curve_point(&self.bytes)
    }

    /// Whether this is the identity of the system program.
    pub fn is_system_program(&self) -> (r: bool)
        ensures
            r == (self@ == system_program_id()),
    {
        is_system_program_id(&self.bytes)
    }
}

/// Whether `r` is a result that `derive` may give for the two identities.
pub open spec fn derives(
    namespace_root: Seq<u8>,
    seed: Seq<u8>,
    r: Result<DerivedAddress, ProvisionError>,
) -> bool {
    match r {
        Ok(d) => derivation(namespace_root, seed) == Ok::<(Seq<u8>, u8), ProvisionError>(
            (d.address@, d.bump),
        ),
        Err(e) => derivation(namespace_root, seed) == Err::<(Seq<u8>, u8), ProvisionError>(e),
    }
}

/// Derives the storage address that belongs to `seed` under the program
/// `namespace_root`, with its bump seed. The address has no private key.
/// Fails with `DerivationExhausted` where no bump seed gives an address.
pub fn derive(namespace_root: &Address, seed: &Address) -> (r: Result<
    DerivedAddress,
    ProvisionError,
>)
    ensures
        match r {
            Ok(d) => is_canonical_bump(seed@, namespace_root@, d.bump) && program_address(
                seed@,
                d.bump,
                namespace_root@,
            ) == Some(d.address@) && !on_curve(d.address@),
            Err(e) => e == ProvisionError::DerivationExhausted && forall|bump: u8|
                bump >= 1 ==> program_address(seed@, bump, namespace_root@) is None,
        },
        derives(namespace_root@, seed@, r),
{
    match find_program_address(&seed.bytes, &namespace_root.bytes) {
        Some((address, bump)) => {
            proof {
                lemma_canonical_bump_unique(
                    seed@,
                    namespace_root@,
                    bump,
                    choose|b: u8| is_canonical_bump(seed@, namespace_root@, b),
                );
            }
            Ok(DerivedAddress { address: Address { bytes: address }, bump })
        },
        None => Err(ProvisionError::DerivationExhausted),
    }
}

/// The address that `seed` and `bump` give under the program
/// `namespace_root`, without a search: `None` where they give none. With
/// the bump seed that `derive` returned, this is the derived address again.
pub fn derive_with_bump(namespace_root: &Address, seed: &Address, bump: u8) -> (r: Option<Address>)
    ensures
        match r {
            Some(address) => program_address(seed@, bump, namespace_root@) == Some(address@)
                && !on_curve(address@),
            None => program_address(seed@, bump, namespace_root@) is None,
        },
{
    match create_program_address(&seed.bytes, bump, &namespace_root.bytes) {
        Some(bytes) => Some(Address { bytes }),
        None => None,
    }
}

/// At most one bump seed is the one that derivation picks.
pub proof fn lemma_canonical_bump_unique(seed: Seq<u8>, program: Seq<u8>, first: u8, second: u8)
    requires
        is_canonical_bump(seed, program, first),
        is_canonical_bump(seed, program, second),
    ensures
        first == second,
{
}

/// What derivation gives is an address of its bump seed, found at the
/// first bump seed from 255 down that has one; derivation fails only
/// where no bump seed from 1 to 255 has an address.
pub proof fn law_derivation_is_first_from_top(namespace_root: Seq<u8>, seed: Seq<u8>)
    ensures
        match derivation(namespace_root, seed) {
            Ok((address, bump)) => 1 <= bump && program_address(seed, bump, namespace_root) == Some(
                address,
            ) && forall|higher: u8|
                bump < higher ==> program_address(seed, higher, namespace_root) is None,
            Err(e) => e == ProvisionError::DerivationExhausted && forall|bump: u8|
                1 <= bump ==> program_address(seed, bump, namespace_root) is None,
        },
{
    if !derivable(seed, namespace_root) {
        assert forall|bump: u8| 1 <= bump implies program_address(
            seed,
            bump,
            namespace_root,
        ) is None by {
            if program_address(seed, bump, namespace_root) is Some {
                lemma_first_from_top(seed, namespace_root, bump, 255);
            }
        }
    }
}

/// Where some bump seed from `low` to `top` has an address, one at or
/// below `top` is the first from the top that has one.
proof fn lemma_first_from_top(seed: Seq<u8>, program: Seq<u8>, low: u8, top: u8)
    requires
        1 <= low <= top,
        program_address(seed, low, program) is Some,
        forall|higher: u8| top < higher ==> program_address(seed, higher, program) is None,
    ensures
        derivable(seed, program),
    decreases top - low,
{
    if program_address(seed, top, program) is Some {
        assert(is_canonical_bump(seed, program, top));
    } else {
        lemma_first_from_top(seed, program, low, (top - 1) as u8);
    }
}

/// Two addresses with the same bytes are the same address.
pub proof fn lemma_address_by_bytes(a: Address, b: Address)
    requires
        a@ == b@,
    ensures
        a == b,
{
    assert(a.bytes =~= b.bytes);
}

/// Derivation is a function of the two identities: whatever two calls on
/// the same program and seed return is the same.
pub proof fn law_derive_deterministic(
    namespace_root: Address,
    seed: Address,
    first: Result<DerivedAddress, ProvisionError>,
    second: Result<DerivedAddress, ProvisionError>,
)
    requires
        derives(namespace_root@, seed@, first),
        derives(namespace_root@, seed@, second),
    ensures
        first == second,
{
    if let Ok(d1) = first {
        if let Ok(d2) = second {
            lemma_address_by_bytes(d1.address, d2.address);
        }
    }
}

} // verus!
