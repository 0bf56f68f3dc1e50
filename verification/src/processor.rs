//! The ledger's one instruction: credit the user account with the amount
//! that the payload's first byte names.

use vstd::prelude::*;
use crate::error::ProgramError;
use crate::pubkey::Pubkey;
use crate::state::{lemma_pack_unpack_roundtrip, UserAccount};

verus! {

/// An account as the handler sees it: its address and the byte buffer that
/// backs it.
#[derive(Debug, PartialEq, Eq)]
pub struct AccountInfo {
    /// Address of the account.
    pub key: Pubkey,
    /// The account's payload, changed in place.
    pub data: Vec<u8>,
}

impl Clone for AccountInfo {
    /// A second account with the same address and a copy of the payload.
    fn clone(&self) -> (copy: AccountInfo)
        ensures
            copy.key == self.key,
            copy.data@ == self.data@,
    {
        AccountInfo { key: self.key, data: self.data.clone() }
    }
}

/// What a successful update reports: the account that was credited and by
/// how much.
#[derive(Clone, Copy, Debug, PartialEq, Eq)]
pub struct CreditReceipt {
    /// Address of the credited user account.
    pub user: Pubkey,
    /// Credits added to its balance.
    pub credits: u64,
}

/// The credits that a payload grants: the value of its first byte, one
/// credit per token. An empty payload and a zero byte grant none. Bytes
/// after the first are not read.
pub open spec fn credit_amount(instruction_data: Seq<u8>) -> Option<u64> {
    if instruction_data.len() == 0 || instruction_data[0] == 0 {
        None
    } else {
        Some(instruction_data[0] as u64)
    }
}

/// The record after `credits` were added: its flag is set, and its balance
/// wraps around at two to the sixty-fourth.
pub open spec fn credited(account: UserAccount, credits: u64) -> UserAccount {
    UserAccount {
        is_initialized: true,
        credits: ((account.credits + credits) % 0x1_0000_0000_0000_0000) as u64,
    }
}

/// Why the handler turns a call down, if it does. The account list is
/// looked at first, then the payload, then the size of the user account.
pub open spec fn rejection(accounts: Seq<AccountInfo>, instruction_data: Seq<u8>) -> Option<
    ProgramError,
> {
    if accounts.len() < 2 {
        Some(ProgramError::NotEnoughAccountKeys)
    } else if credit_amount(instruction_data) is None {
        Some(ProgramError::InvalidInstructionData)
    } else if accounts[0].data@.len() != UserAccount::LEN {
        Some(ProgramError::InvalidAccountData)
    } else {
        None
    }
}

/// Credits the user account, the first of `accounts`, with the amount in
/// `instruction_data`. The second account, the token account, must be there
/// and is never read. A call that is turned down changes nothing.
///
/// The balance is added to with wrapping arithmetic: a balance at the top of
/// its range starts over from zero rather than failing the instruction.
///
/// Nothing here asks who owns the user account or who signed for it. Beyond
/// what the runtime enforces by itself, whoever may submit the instruction
/// may credit any account that the program can write to.
pub fn process_instruction(
    _program_id: &Pubkey,
    accounts: &mut [AccountInfo],
    instruction_data: &[u8],
) -> (r: Result<CreditReceipt, ProgramError>)
    ensures
        final(accounts)@.len() == old(accounts)@.len(),
        forall|i: int| 1 <= i < old(accounts)@.len() ==> final(accounts)@[i] == old(accounts)@[i],
        match r {
            Ok(receipt) => {
                &&& rejection(old(accounts)@, instruction_data@) is None
                &&& credit_amount(instruction_data@) == Some(receipt.credits)
                &&& receipt.user == old(accounts)@[0].key
                &&& final(accounts)@[0].key == old(accounts)@[0].key
                &&& final(accounts)@[0].data@ == credited(
                    UserAccount::unpacked(old(accounts)@[0].data@),
                    receipt.credits,
                ).packed()
                &&& UserAccount::unpacked(final(accounts)@[0].data@) == credited(
                    UserAccount::unpacked(old(accounts)@[0].data@),
                    receipt.credits,
                )
            },
            Err(e) => {
                &&& rejection(old(accounts)@, instruction_data@) == Some(e)
                &&& final(accounts)@ == old(accounts)@
            },
        },
{
    if accounts.len() < 2 {
        return Err(ProgramError::NotEnoughAccountKeys);
    }
    if instruction_data.is_empty() {
        return Err(ProgramError::InvalidInstructionData);
    }
    let token_amount: u64 = instruction_data[0] as u64;
    if token_amount == 0 {
        return Err(ProgramError::InvalidInstructionData);
    }
    // One credit per token.
    let credits: u64 = token_amount;

    let mut user_data: UserAccount = UserAccount::unpack_unchecked(accounts[0].data.as_slice())?;
    if !user_data.is_initialized {
        user_data.is_initialized = true;
    }
    user_data.credits = user_data.credits.wrapping_add(credits);
    UserAccount::pack(user_data, accounts[0].data.as_mut_slice())?;
    proof {
        lemma_pack_unpack_roundtrip(user_data);
    }

    Ok(CreditReceipt { user: accounts[0].key, credits })
}

/// An empty payload is always turned down, and so leaves every account as
/// it was: as invalid instruction data wherever the two accounts are there.
pub proof fn lemma_empty_payload_rejected(accounts: Seq<AccountInfo>, instruction_data: Seq<u8>)
    requires
        instruction_data.len() == 0,
    ensures
        rejection(accounts, instruction_data) is Some,
        accounts.len() >= 2 ==> rejection(accounts, instruction_data) == Some(
            ProgramError::InvalidInstructionData,
        ),
{
}

/// A payload whose first byte is zero is always turned down, and so leaves
/// every account as it was: as invalid instruction data wherever the two
/// accounts are there.
pub proof fn lemma_zero_amount_rejected(accounts: Seq<AccountInfo>, instruction_data: Seq<u8>)
    requires
        instruction_data.len() > 0,
        instruction_data[0] == 0,
    ensures
        rejection(accounts, instruction_data) is Some,
        accounts.len() >= 2 ==> rejection(accounts, instruction_data) == Some(
            ProgramError::InvalidInstructionData,
        ),
{
}

/// Nine zero bytes, the state of an account that was never written, hold
/// the record with an unset flag and no credits; its first update leaves it
/// with a set flag and the credits granted.
pub proof fn lemma_first_credit(data: Seq<u8>, credits: u64)
    requires
        data.len() == 9,
        forall|i: int| 0 <= i < 9 ==> data[i] == 0,
    ensures
        UserAccount::unpacked(data) == (UserAccount { is_initialized: false, credits: 0 }),
        credited(UserAccount::unpacked(data), credits) == (UserAccount {
            is_initialized: true,
            credits,
        }),
{
}

/// A balance that has room for the credits granted grows by exactly that
/// many; the flag of the record is set afterwards whatever it was.
pub proof fn lemma_credit_adds(account: UserAccount, credits: u64)
    requires
        account.credits + credits <= u64::MAX,
    ensures
        credited(account, credits).credits == account.credits + credits,
        credited(account, credits).is_initialized,
{
}

} // verus!
