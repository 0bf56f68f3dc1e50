//! Failure codes shared by the handlers of this crate.

use vstd::prelude::*;

verus! {

/// Why a handler or the account codec turned its input down.
///
/// The variants are named after the runtime's program error codes that they
/// are reported as.
#[derive(Clone, Copy, Debug, PartialEq, Eq)]
pub enum ProgramError {
    /// The instruction payload is empty or carries a zero amount.
    InvalidInstructionData,
    /// An account buffer does not have the size of the record it should hold.
    InvalidAccountData,
    /// A record that must have been written before has its flag unset.
    UninitializedAccount,
    /// Fewer accounts were passed than the instruction reads.
    NotEnoughAccountKeys,
}

} // verus!
