//! A deterministic token ledger: instructions are decoded from bytes, checked
//! against the accounts they name, and applied to the records those accounts hold.

pub mod account;
pub mod error;
pub mod instruction;
pub mod processor;
pub mod pubkey;
pub mod reward;
pub mod state;
pub mod wire;

pub use account::{check_rent_exempt, validate_accounts, AccountInfo};
pub use error::{LedgerError, ZenithCodeError};
pub use instruction::ZenithCodeInstruction;
pub use processor::{
    process_claim_rewards, process_contribute_pattern, process_initialize_user,
    process_instruction, process_transfer_tokens, Receipt, Sysvars,
};
pub use pubkey::Pubkey;
pub use reward::calculate_tokens_earned;
pub use state::{PatternContribution, TokenTransaction, UserAccount};
