//! The record kept in a derived storage account, and its nine-byte layout.
//!
//! | offset | size | field            | encoding                  |
//! |--------|------|------------------|---------------------------|
//! | 0      | 1    | `is_initialized` | `0` or `1`                |
//! | 1      | 8    | `lamports`       | unsigned, little-endian   |

use crate::error::ProvisionError;
use vstd::arithmetic::div_mod::lemma_div_denominator;
use vstd::prelude::*;

verus! {

/// The number of bytes that a stored record takes.
pub const USER_STAKE_SIZE: usize = 1 + 8;

/// The balance that a record holds once it is initialized.
pub const INITIAL_LAMPORTS: u64 = 42;

/// The state record of one requester.
#[derive(Clone, Copy, Debug, PartialEq, Eq, Structural)]
pub struct UserStake {
    pub is_initialized: bool,
    pub lamports: u64,
}

/// The number that eight bytes spell, least significant byte first.
pub open spec fn le_value(bytes: Seq<u8>) -> nat
    recommends
        bytes.len() == 8,
{
    (bytes[0] as nat)
        + (bytes[1] as nat) * 0x100
        + (bytes[2] as nat) * 0x1_0000
        + (bytes[3] as nat) * 0x100_0000
        + (bytes[4] as nat) * 0x1_0000_0000
        + (bytes[5] as nat) * 0x100_0000_0000
        + (bytes[6] as nat) * 0x1_0000_0000_0000
        + (bytes[7] as nat) * 0x100_0000_0000_0000
}

/// The eight bytes that spell `value`, least significant byte first.
pub open spec fn le_bytes(value: u64) -> Seq<u8> {
    seq![
        (value % 0x100) as u8,
        (value / 0x100 % 0x100) as u8,
        (value / 0x1_0000 % 0x100) as u8,
        (value / 0x100_0000 % 0x100) as u8,
        (value / 0x1_0000_0000 % 0x100) as u8,
        (value / 0x100_0000_0000 % 0x100) as u8,
        (value / 0x1_0000_0000_0000 % 0x100) as u8,
        (value / 0x100_0000_0000_0000 % 0x100) as u8,
    ]
}

/// A number below 256 in front of a multiple of 256 is the remainder, and
/// the multiplier is the quotient.
proof fn lemma_peel(x: int, low: int, rest: int)
    requires
        0 <= low < 0x100,
        x == low + 0x100 * rest,
    ensures
        x % 0x100 == low,
        x / 0x100 == rest,
{
}

/// Spelling a number and reading it back gives the number.
pub proof fn lemma_le_value_of_bytes(value: u64)
    ensures
        le_bytes(value).len() == 8,
        le_value(le_bytes(value)) == value,
{
    let v = value as int;
    let q1 = v / 0x100;
    let q2 = q1 / 0x100;
    let q3 = q2 / 0x100;
    let q4 = q3 / 0x100;
    let q5 = q4 / 0x100;
    let q6 = q5 / 0x100;
    let q7 = q6 / 0x100;
    assert(q2 == v / 0x1_0000) by {
        lemma_div_denominator(v, 0x100, 0x100);
    }
    assert(q3 == v / 0x100_0000) by {
        lemma_div_denominator(v, 0x1_0000, 0x100);
    }
    assert(q4 == v / 0x1_0000_0000) by {
        lemma_div_denominator(v, 0x100_0000, 0x100);
    }
    assert(q5 == v / 0x100_0000_0000) by {
        lemma_div_denominator(v, 0x1_0000_0000, 0x100);
    }
    assert(q6 == v / 0x1_0000_0000_0000) by {
        lemma_div_denominator(v, 0x100_0000_0000, 0x100);
    }
    assert(q7 == v / 0x100_0000_0000_0000) by {
        lemma_div_denominator(v, 0x1_0000_0000_0000, 0x100);
    }
    assert(q7 % 0x100 == q7);
    assert(v == v % 0x100 + 0x100 * q1);
    assert(q1 == q1 % 0x100 + 0x100 * q2);
    assert(q2 == q2 % 0x100 + 0x100 * q3);
    assert(q3 == q3 % 0x100 + 0x100 * q4);
    assert(q4 == q4 % 0x100 + 0x100 * q5);
    assert(q5 == q5 % 0x100 + 0x100 * q6);
    assert(q6 == q6 % 0x100 + 0x100 * q7);
}

/// Reading eight bytes and spelling the number gives the bytes.
pub proof fn lemma_le_bytes_of_value(bytes: Seq<u8>)
    requires
        bytes.len() == 8,
    ensures
        le_value(bytes) <= u64::MAX,
        le_bytes(le_value(bytes) as u64) == bytes,
{
    let v = le_value(bytes) as int;
    let t7 = bytes[7] as int;
    let t6 = bytes[6] as int + 0x100 * t7;
    let t5 = bytes[5] as int + 0x100 * t6;
    let t4 = bytes[4] as int + 0x100 * t5;
    let t3 = bytes[3] as int + 0x100 * t4;
    let t2 = bytes[2] as int + 0x100 * t3;
    let t1 = bytes[1] as int + 0x100 * t2;
    lemma_peel(v, bytes[0] as int, t1);
    lemma_peel(t1, bytes[1] as int, t2);
    lemma_peel(t2, bytes[2] as int, t3);
    lemma_peel(t3, bytes[3] as int, t4);
    lemma_peel(t4, bytes[4] as int, t5);
    lemma_peel(t5, bytes[5] as int, t6);
    lemma_peel(t6, bytes[6] as int, t7);
    lemma_peel(t7, bytes[7] as int, 0);
    assert(t2 == v / 0x1_0000) by {
        lemma_div_denominator(v, 0x100, 0x100);
    }
    assert(t3 == v / 0x100_0000) by {
        lemma_div_denominator(v, 0x1_0000, 0x100);
    }
    assert(t4 == v / 0x1_0000_0000) by {
        lemma_div_denominator(v, 0x100_0000, 0x100);
    }
    assert(t5 == v / 0x100_0000_0000) by {
        lemma_div_denominator(v, 0x1_0000_0000, 0x100);
    }
    assert(t6 == v / 0x1_0000_0000_0000) by {
        lemma_div_denominator(v, 0x100_0000_0000, 0x100);
    }
    assert(t7 == v / 0x100_0000_0000_0000) by {
        lemma_div_denominator(v, 0x1_0000_0000_0000, 0x100);
    }
    assert(le_bytes(v as u64) =~= bytes);
}

impl UserStake {
    /// The record that a freshly created, zero-filled account holds.
    pub open spec fn blank() -> UserStake {
        UserStake { is_initialized: false, lamports: 0 }
    }

    /// The record as first written: flagged, with the initial balance.
    pub open spec fn initialized() -> UserStake {
        UserStake { is_initialized: true, lamports: INITIAL_LAMPORTS }
    }

    /// The nine bytes that store the record.
    pub open spec fn spec_encode(self) -> Seq<u8> {
        seq![if self.is_initialized { 1u8 } else { 0u8 }] + le_bytes(self.lamports)
    }

    /// The record that the front of `bytes` stores. There is none where
    /// `bytes` is shorter than a record or the flag byte is neither 0 nor 1;
    /// bytes behind the record are not looked at.
    pub open spec fn spec_decode(bytes: Seq<u8>) -> Option<UserStake> {
        if bytes.len() >= USER_STAKE_SIZE && bytes[0] <= 1 {
            Some(
                UserStake {
                    is_initialized: bytes[0] == 1,
                    lamports: le_value(bytes.subrange(1, 9)) as u64,
                },
            )
        } else {
            None
        }
    }

    /// What `buffer` holds once the record is stored at its front: the
    /// nine bytes of the record, then the bytes of `buffer` behind them.
    pub open spec fn stored_in(self, buffer: Seq<u8>) -> Seq<u8> {
        self.spec_encode() + buffer.subrange(USER_STAKE_SIZE as int, buffer.len() as int)
    }

    /// Whether the record has been initialized.
    pub fn is_initialized(&self) -> (r: bool)
        ensures
            r == self.is_initialized,
    {
        self.is_initialized
    }

    /// Writes the record out in its stored form.
    pub fn encode(&self) -> (r: [u8; 9])
        ensures
            r@ == self.spec_encode(),
    {
        let v: u64 = self.lamports;
        let flag: u8 = if self.is_initialized { 1 } else { 0 };
        let r: [u8; 9] = [
            flag,
            (v % 0x100) as u8,
            (v / 0x100 % 0x100) as u8,
            (v / 0x1_0000 % 0x100) as u8,
            (v / 0x100_0000 % 0x100) as u8,
            (v / 0x1_0000_0000 % 0x100) as u8,
            (v / 0x100_0000_0000 % 0x100) as u8,
            (v / 0x1_0000_0000_0000 % 0x100) as u8,
            (v / 0x100_0000_0000_0000 % 0x100) as u8,
        ];
        assert(r@ =~= self.spec_encode());
        r
    }

    /// Reads the record stored at the front of `bytes`.
    pub fn decode(bytes: &[u8]) -> (r: Option<UserStake>)
        ensures
            r == UserStake::spec_decode(bytes@),
    {
        if bytes.len() < USER_STAKE_SIZE || bytes[0] > 1 {
            return None;
        }
        let lamports: u64 = (bytes[1] as u64)
            + (bytes[2] as u64) * 0x100
            + (bytes[3] as u64) * 0x1_0000
            + (bytes[4] as u64) * 0x100_0000
            + (bytes[5] as u64) * 0x1_0000_0000
            + (bytes[6] as u64) * 0x100_0000_0000
            + (bytes[7] as u64) * 0x1_0000_0000_0000
            + (bytes[8] as u64) * 0x100_0000_0000_0000;
        Some(UserStake { is_initialized: bytes[0] == 1, lamports })
    }

    /// Stores the record at the front of `buffer` and leaves the bytes
    /// behind it as they are. Writes nothing and returns `false` where
    /// `buffer` is shorter than a record.
    pub fn store(&self, buffer: &mut [u8]) -> (r: bool)
        ensures
            r == (old(buffer)@.len() >= USER_STAKE_SIZE),
            r ==> final(buffer)@ == self.stored_in(old(buffer)@),
            !r ==> final(buffer)@ == old(buffer)@,
    {
        if buffer.len() < USER_STAKE_SIZE {
            return false;
        }
        let bytes = self.encode();
        let mut i: usize = 0;
        while i < USER_STAKE_SIZE
            invariant
                i <= USER_STAKE_SIZE,
                bytes@ == self.spec_encode(),
                buffer@.len() == old(buffer)@.len(),
                buffer@.len() >= USER_STAKE_SIZE,
                forall|j: int| 0 <= j < i ==> buffer@[j] == bytes@[j],
                forall|j: int| i <= j < buffer@.len() ==> buffer@[j] == old(buffer)@[j],
            decreases USER_STAKE_SIZE - i,
        {
            buffer[i] = bytes[i];
            i += 1;
        }
        assert(buffer@ =~= self.stored_in(old(buffer)@));
        true
    }

    /// Marks the record as initialized and gives it the initial balance,
    /// unless it is initialized already: then nothing changes.
    pub fn initialize(&mut self) -> (r: Result<(), ProvisionError>)
        ensures
            old(self).is_initialized ==> r == Err::<(), ProvisionError>(
                ProvisionError::AccountAlreadyInitialized,
            ) && *final(self) == *old(self),
            !old(self).is_initialized ==> r == Ok::<(), ProvisionError>(()) && *final(self)
                == UserStake::initialized(),
    {
        if self.is_initialized {
            return Err(ProvisionError::AccountAlreadyInitialized);
        }
        self.lamports = INITIAL_LAMPORTS;
        self.is_initialized = true;
        Ok(())
    }
}

/// A stored record reads back as itself, whatever bytes follow it.
pub proof fn law_decode_of_encode(record: UserStake, tail: Seq<u8>)
    ensures
        record.spec_encode().len() == USER_STAKE_SIZE,
        UserStake::spec_decode(record.spec_encode() + tail) == Some(record),
{
    let stored = record.spec_encode() + tail;
    lemma_le_value_of_bytes(record.lamports);
    assert(stored.subrange(1, 9) =~= le_bytes(record.lamports));
}

/// Where bytes hold a record, storing that record gives their first nine
/// bytes back: no two byte strings of that length hold the same record.
pub proof fn law_encode_of_decode(bytes: Seq<u8>)
    requires
        UserStake::spec_decode(bytes) is Some,
    ensures
        UserStake::spec_decode(bytes)->Some_0.spec_encode() == bytes.subrange(0, 9),
{
    let field = bytes.subrange(1, 9);
    lemma_le_bytes_of_value(field);
    assert(UserStake::spec_decode(bytes)->Some_0.spec_encode() =~= bytes.subrange(0, 9));
}

/// Storing a record keeps the length of the buffer, and the record is
/// what the buffer then holds.
pub proof fn law_stored_record_reads_back(record: UserStake, buffer: Seq<u8>)
    requires
        buffer.len() >= USER_STAKE_SIZE,
    ensures
        record.stored_in(buffer).len() == buffer.len(),
        UserStake::spec_decode(record.stored_in(buffer)) == Some(record),
{
    law_decode_of_encode(record, buffer.subrange(USER_STAKE_SIZE as int, buffer.len() as int));
}

/// A zero-filled buffer of at least nine bytes holds the blank record.
pub proof fn law_zero_filled_is_blank(bytes: Seq<u8>)
    requires
        bytes.len() >= USER_STAKE_SIZE,
        forall|i: int| 0 <= i < bytes.len() ==> bytes[i] == 0,
    ensures
        UserStake::spec_decode(bytes) == Some(UserStake::blank()),
{
}

impl Default for UserStake {
    fn default() -> (r: UserStake)
        ensures
            r == UserStake::blank(),
    {
        UserStake { is_initialized: false, lamports: 0 }
    }
}

} // verus!
