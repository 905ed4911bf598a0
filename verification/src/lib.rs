//! Points ledger for the $LE token: instruction decoding, authorization,
//! rate windows, referral rewards and the account store they act on,
//! together with the checks of the token program and its metadata.

pub mod account;
pub mod clock;
pub mod engine;
pub mod error;
pub mod guard;
pub mod identity;
pub mod instruction;
pub mod laws;
pub mod qr;
pub mod referral;
pub mod store;
pub mod text;
pub mod token_api;
pub mod token_metadata;
pub mod token_program;
pub mod window;

pub use crate::account::{Receipt, UserAccount};
pub use crate::clock::get_current_timestamp;
pub use crate::engine::{process_instruction, LedgerEngine};
pub use crate::error::LedgerError;
pub use crate::identity::Identity;
pub use crate::instruction::Instruction;
pub use crate::qr::generate_qr_code;
pub use crate::store::AccountStore;
pub use crate::token_api::{exchange_points_to_token, get_token_info, ExchangeRequest, TokenInfo};
pub use crate::token_metadata::{create_metadata_account, update_metadata, TokenMetadata};
pub use crate::token_program::{
    AccountMeta, TokenError, TokenInstruction, TOKEN_DECIMALS, TOKEN_NAME, TOKEN_SYMBOL,
    TOKEN_TOTAL_SUPPLY,
};
