//! Addresses of accounts and programs.

use vstd::prelude::*;

verus! {

/// The thirty-two bytes by which the runtime names an account or a program.
#[derive(Clone, Copy, Debug, PartialEq, Eq)]
pub struct Pubkey(pub [u8; 32]);

} // verus!
