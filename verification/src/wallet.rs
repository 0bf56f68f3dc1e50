//! The wallet scaffold: a program with one instruction that does nothing.

use vstd::prelude::*;
use crate::error::ProgramError;
use crate::pubkey::Pubkey;

verus! {

/// What a handler of the wallet is called with.
#[derive(Debug)]
pub struct Context<T> {
    /// Address of the program that is running.
    pub program_id: Pubkey,
    /// The accounts of the instruction.
    pub accounts: T,
}

/// The accounts of [`initialize`]: none.
#[derive(Clone, Copy, Debug, PartialEq, Eq)]
pub struct Initialize {}

/// Sets the wallet up, for which there is nothing to do: every call
/// succeeds. The context is taken by value and nothing else is reachable
/// from here, so no state changes.
pub fn initialize(_ctx: Context<Initialize>) -> (r: Result<(), ProgramError>)
    ensures
        r == Ok::<(), ProgramError>(()),
{
    Ok(())
}

} // verus!
