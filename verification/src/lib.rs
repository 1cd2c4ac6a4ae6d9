//! A minimal ledger engine: an append-only chain of blocks, each carrying a
//! batch of transactions, secured by hash-chaining and applied against a
//! world state of accounts.

pub mod account;
pub mod block;
pub mod chain;
pub mod errors;
pub mod hashing;
pub mod transaction;
pub mod validator;
pub mod world_state;

pub use account::Account;
pub use account::AccountType;
pub use block::Block;
pub use chain::Blockchain;
pub use errors::LedgerError;
pub use transaction::Transaction;
pub use transaction::TransactionData;
pub use world_state::WorldState;
