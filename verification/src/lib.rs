//! A per-user credit ledger and a wallet scaffold for an account-based
//! blockchain runtime, with every routine verified against its contract.

pub mod error;
pub mod processor;
pub mod pubkey;
pub mod state;
pub mod wallet;

pub use error::ProgramError;
pub use processor::{process_instruction, AccountInfo, CreditReceipt};
pub use pubkey::Pubkey;
pub use state::UserAccount;
pub use wallet::{initialize, Context, Initialize};
