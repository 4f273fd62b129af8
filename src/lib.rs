//! A single-asset fungible-token ledger: balances, allowances, minters and an
//! audit trail of transfers and mints, with every state transition verified.
pub mod canister;
pub mod entries;
pub mod laws;
pub mod ledger;
pub mod principal;

pub use canister::TokenCanister;
pub use ledger::{LedgerModel, RecordModel, Token, TokenError, TokenICRC2, TransactionRecord};
pub use principal::Principal;
