//! The user account record and its fixed nine-byte layout.
//!
//! | offset | size | field                                   |
//! |--------|------|-----------------------------------------|
//! | 0      | 1    | `is_initialized`, zero for `false`      |
//! | 1      | 8    | `credits`, least significant byte first |

use vstd::prelude::*;
use vstd::bytes::{
    lemma_auto_spec_u64_to_from_le_bytes, spec_u64_from_le_bytes, spec_u64_to_le_bytes,
    spec_u64_to_le_bytes_open, spec_u64_to_le_bytes_to_open, u64_from_le_bytes, u64_to_le_bytes,
};
use vstd::slice::slice_subrange;
use crate::error::ProgramError;

verus! {

/// The number that eight bytes spell, least significant byte first.
pub open spec fn le_value(b: Seq<u8>) -> int
    recommends
        b.len() == 8,
{
    b[0] + b[1] * 0x100 + b[2] * 0x1_0000 + b[3] * 0x100_0000 + b[4] * 0x1_0000_0000 + b[5]
        * 0x100_0000_0000 + b[6] * 0x1_0000_0000_0000 + b[7] * 0x100_0000_0000_0000
}

/// The eight bytes that spell `v`, least significant byte first.
pub open spec fn le_bytes(v: u64) -> Seq<u8> {
    seq![
        (v % 0x100) as u8,
        (v / 0x100 % 0x100) as u8,
        (v / 0x1_0000 % 0x100) as u8,
        (v / 0x100_0000 % 0x100) as u8,
        (v / 0x1_0000_0000 % 0x100) as u8,
        (v / 0x100_0000_0000 % 0x100) as u8,
        (v / 0x1_0000_0000_0000 % 0x100) as u8,
        (v / 0x100_0000_0000_0000 % 0x100) as u8,
    ]
}

/// Eight bytes never spell more than sixty-four bits hold.
pub proof fn lemma_le_value_fits(b: Seq<u8>)
    requires
        b.len() == 8,
    ensures
        0 <= le_value(b) <= u64::MAX,
{
}

/// Reading back the bytes of a number gives the number.
pub proof fn lemma_le_value_of_bytes(v: u64)
    ensures
        le_bytes(v).len() == 8,
        le_value(le_bytes(v)) == v,
{
    assert(v == (v % 0x100) + (v / 0x100 % 0x100) * 0x100 + (v / 0x1_0000 % 0x100) * 0x1_0000 + (v
        / 0x100_0000 % 0x100) * 0x100_0000 + (v / 0x1_0000_0000 % 0x100) * 0x1_0000_0000 + (v
        / 0x100_0000_0000 % 0x100) * 0x100_0000_0000 + (v / 0x1_0000_0000_0000 % 0x100)
        * 0x1_0000_0000_0000 + (v / 0x100_0000_0000_0000 % 0x100) * 0x100_0000_0000_0000)
        by (bit_vector);
}

/// Spelling the number that eight bytes hold gives the same eight bytes.
pub proof fn lemma_le_bytes_of_value(b: Seq<u8>)
    requires
        b.len() == 8,
    ensures
        le_bytes(le_value(b) as u64) == b,
{
    let (b0, b1, b2, b3, b4, b5, b6, b7) = (b[0], b[1], b[2], b[3], b[4], b[5], b[6], b[7]);
    let v = le_value(b) as u64;
    assert(v == b0 + b1 * 0x100 + b2 * 0x1_0000 + b3 * 0x100_0000 + b4 * 0x1_0000_0000 + b5
        * 0x100_0000_0000 + b6 * 0x1_0000_0000_0000 + b7 * 0x100_0000_0000_0000);
    assert(v == b0 + b1 * 0x100 + b2 * 0x1_0000 + b3 * 0x100_0000 + b4 * 0x1_0000_0000 + b5
        * 0x100_0000_0000 + b6 * 0x1_0000_0000_0000 + b7 * 0x100_0000_0000_0000 ==> v % 0x100
        == b0 && v / 0x100 % 0x100 == b1 && v / 0x1_0000 % 0x100 == b2 && v / 0x100_0000 % 0x100
        == b3 && v / 0x1_0000_0000 % 0x100 == b4 && v / 0x100_0000_0000 % 0x100 == b5 && v
        / 0x1_0000_0000_0000 % 0x100 == b6 && v / 0x100_0000_0000_0000 % 0x100 == b7)
        by (bit_vector);
    assert(le_bytes(v) =~= b);
}

/// The bytes that `u64::to_le_bytes` gives are those of [`le_bytes`].
proof fn lemma_to_le_bytes(v: u64)
    ensures
        spec_u64_to_le_bytes(v) == le_bytes(v),
{
    spec_u64_to_le_bytes_to_open(v);
    assert(v & 0xff == v % 0x100 && (v >> 8) & 0xff == v / 0x100 % 0x100 && (v >> 16) & 0xff == v
        / 0x1_0000 % 0x100 && (v >> 24) & 0xff == v / 0x100_0000 % 0x100 && (v >> 32) & 0xff == v
        / 0x1_0000_0000 % 0x100 && (v >> 40) & 0xff == v / 0x100_0000_0000 % 0x100 && (v >> 48)
        & 0xff == v / 0x1_0000_0000_0000 % 0x100 && (v >> 56) & 0xff == v
        / 0x100_0000_0000_0000 % 0x100) by (bit_vector);
    assert(spec_u64_to_le_bytes_open(v) =~= le_bytes(v));
}

/// The number that `u64::from_le_bytes` gives is that of [`le_value`].
proof fn lemma_from_le_bytes(b: Seq<u8>)
    requires
        b.len() == 8,
    ensures
        spec_u64_from_le_bytes(b) == le_value(b),
{
    let v = spec_u64_from_le_bytes(b);
    lemma_auto_spec_u64_to_from_le_bytes();
    assert(spec_u64_to_le_bytes(v) == b);
    lemma_to_le_bytes(v);
    lemma_le_value_of_bytes(v);
}

/// Per-user ledger record.
#[derive(Clone, Copy, Debug, PartialEq, Eq)]
pub struct UserAccount {
    /// Whether the record has been written before.
    pub is_initialized: bool,
    /// Accumulated credit balance.
    pub credits: u64,
}

impl Default for UserAccount {
    /// The record that an all-zero buffer holds.
    fn default() -> (account: UserAccount)
        ensures
            account == (UserAccount { is_initialized: false, credits: 0 }),
    {
        UserAccount { is_initialized: false, credits: 0 }
    }
}

impl UserAccount {
    /// Size in bytes of an encoded record.
    pub const LEN: usize = 9;

    /// The nine bytes that hold `self`.
    pub open spec fn packed(self) -> Seq<u8> {
        seq![if self.is_initialized { 1u8 } else { 0u8 }] + le_bytes(self.credits)
    }

    /// The record that the first nine bytes of `bytes` hold. Any non-zero
    /// flag byte counts as set.
    pub open spec fn unpacked(bytes: Seq<u8>) -> UserAccount
        recommends
            bytes.len() >= 9,
    {
        UserAccount { is_initialized: bytes[0] != 0, credits: le_value(bytes.subrange(1, 9)) as u64 }
    }

    /// Whether the record has been written before.
    pub fn is_initialized(&self) -> (b: bool)
        ensures
            b == self.is_initialized,
    {
        self.is_initialized
    }

    /// Writes the record over the first nine bytes of `dst` and leaves the
    /// rest as it is. A shorter `dst` is turned down untouched.
    pub fn pack_into_slice(&self, dst: &mut [u8]) -> (r: Result<(), ProgramError>)
        ensures
            final(dst)@.len() == old(dst)@.len(),
            match r {
                Ok(_) => {
                    &&& old(dst)@.len() >= 9
                    &&& final(dst)@.subrange(0, 9) == self.packed()
                    &&& final(dst)@.subrange(9, old(dst)@.len() as int) == old(dst)@.subrange(
                        9,
                        old(dst)@.len() as int,
                    )
                },
                Err(e) => {
                    &&& old(dst)@.len() < 9
                    &&& e == ProgramError::InvalidAccountData
                    &&& final(dst)@ == old(dst)@
                },
            },
    {
        if dst.len() < Self::LEN {
            return Err(ProgramError::InvalidAccountData);
        }
        dst[0] = if self.is_initialized { 1u8 } else { 0u8 };
        let bytes = u64_to_le_bytes(self.credits);
        proof {
            lemma_to_le_bytes(self.credits);
        }
        let mut i: usize = 0;
        while i < 8
            invariant
                i <= 8,
                bytes@ == le_bytes(self.credits),
                dst@.len() == old(dst)@.len(),
                dst@.len() >= 9,
                dst@[0] == self.packed()[0],
                forall|j: int| 0 <= j < i ==> dst@[1 + j] == bytes@[j],
                forall|j: int| 9 <= j < dst@.len() ==> dst@[j] == old(dst)@[j],
            decreases 8 - i,
        {
            dst[1 + i] = bytes[i];
            i += 1;
        }
        assert(dst@.subrange(0, 9) =~= self.packed());
        assert(dst@.subrange(9, dst@.len() as int) =~= old(dst)@.subrange(9, dst@.len() as int));
        Ok(())
    }

    /// Reads a record from the first nine bytes of `src`, whatever they are.
    /// A shorter `src` is turned down.
    pub fn unpack_from_slice(src: &[u8]) -> (r: Result<UserAccount, ProgramError>)
        ensures
            match r {
                Ok(account) => src@.len() >= 9 && account == Self::unpacked(src@),
                Err(e) => src@.len() < 9 && e == ProgramError::InvalidAccountData,
            },
    {
        if src.len() < Self::LEN {
            return Err(ProgramError::InvalidAccountData);
        }
        let is_initialized: bool = src[0] != 0;
        let credits: u64 = u64_from_le_bytes(slice_subrange(src, 1, 9));
        proof {
            lemma_from_le_bytes(src@.subrange(1, 9));
        }
        Ok(UserAccount { is_initialized, credits })
    }

    /// Writes `src` into a buffer of exactly nine bytes. A buffer of any
    /// other size is turned down untouched.
    pub fn pack(src: UserAccount, dst: &mut [u8]) -> (r: Result<(), ProgramError>)
        ensures
            match r {
                Ok(_) => old(dst)@.len() == 9 && final(dst)@ == src.packed(),
                Err(e) => {
                    &&& old(dst)@.len() != 9
                    &&& e == ProgramError::InvalidAccountData
                    &&& final(dst)@ == old(dst)@
                },
            },
    {
        if dst.len() != Self::LEN {
            return Err(ProgramError::InvalidAccountData);
        }
        let r = src.pack_into_slice(dst);
        assert(dst@.subrange(0, 9) =~= dst@);
        r
    }

    /// Reads a record from a buffer of exactly nine bytes without asking
    /// whether it was ever written: a fresh, all-zero buffer decodes to the
    /// default record.
    pub fn unpack_unchecked(input: &[u8]) -> (r: Result<UserAccount, ProgramError>)
        ensures
            match r {
                Ok(account) => input@.len() == 9 && account == Self::unpacked(input@),
                Err(e) => input@.len() != 9 && e == ProgramError::InvalidAccountData,
            },
    {
        if input.len() != Self::LEN {
            return Err(ProgramError::InvalidAccountData);
        }
        Self::unpack_from_slice(input)
    }

    /// Reads a record from a buffer of exactly nine bytes and turns it down
    /// unless its flag is set.
    pub fn unpack(input: &[u8]) -> (r: Result<UserAccount, ProgramError>)
        ensures
            match r {
                Ok(account) => {
                    &&& input@.len() == 9
                    &&& input@[0] != 0
                    &&& account == Self::unpacked(input@)
                },
                Err(e) => if input@.len() != 9 {
                    e == ProgramError::InvalidAccountData
                } else {
                    input@[0] == 0 && e == ProgramError::UninitializedAccount
                },
            },
    {
        let value = Self::unpack_unchecked(input)?;
        if value.is_initialized() {
            Ok(value)
        } else {
            Err(ProgramError::UninitializedAccount)
        }
    }
}

/// An encoded record is nine bytes long: the flag as `0` or `1`, then the
/// balance.
pub proof fn lemma_packed_layout(account: UserAccount)
    ensures
        account.packed().len() == 9,
        account.packed()[0] == (if account.is_initialized { 1u8 } else { 0u8 }),
        account.packed().subrange(1, 9) == le_bytes(account.credits),
{
    assert(account.packed().subrange(1, 9) =~= le_bytes(account.credits));
}

/// Encoding a record and decoding the result gives the record back, for
/// every flag and every balance.
pub proof fn lemma_pack_unpack_roundtrip(account: UserAccount)
    ensures
        UserAccount::unpacked(account.packed()) == account,
{
    lemma_packed_layout(account);
    lemma_le_value_of_bytes(account.credits);
}

/// Decoding nine bytes and encoding the result gives the same bytes back,
/// provided their flag byte is `0` or `1`. Any other flag byte comes back
/// as `1`.
pub proof fn lemma_unpack_pack_roundtrip(bytes: Seq<u8>)
    requires
        bytes.len() == 9,
        bytes[0] <= 1,
    ensures
        UserAccount::unpacked(bytes).packed() == bytes,
{
    let tail = bytes.subrange(1, 9);
    lemma_le_value_fits(tail);
    lemma_le_bytes_of_value(tail);
    assert(UserAccount::unpacked(bytes).packed() =~= bytes);
}

} // verus!
