//! The typed failures of validation and block append. Every failure is
//! recoverable by the caller and identifies exactly which check refused.

use vstd::prelude::*;

verus! {

/// Why a transaction or a block was rejected.
///
/// Structural: `NotGenesis`, `BrokenChain`, `HashMismatch`. Authorization:
/// `MissingSignature`. Ordering: `NonceMismatch`. State: `UnknownSender`,
/// `AccountExists`, `UnknownRecipient`, `InsufficientFunds`,
/// `BalanceOverflow`.
#[derive(Debug, Clone, Copy, PartialEq, Eq, Structural)]
pub enum LedgerError {
    /// The chain is empty, so the appended block must be genesis, yet it
    /// carries a predecessor hash.
    NotGenesis,
    /// The block's predecessor hash does not equal the chain tip's hash.
    BrokenChain,
    /// The block's committed hash is absent or does not match its contents.
    HashMismatch,
    /// The sending account does not exist (and the transaction is not a
    /// bootstrap self-registration).
    UnknownSender,
    /// The transaction's nonce is not the sender's last nonce plus one.
    NonceMismatch,
    /// A required signature is absent or empty.
    MissingSignature,
    /// The account to create already exists.
    AccountExists,
    /// The account to credit does not exist.
    UnknownRecipient,
    /// The sender's balance is smaller than the transfer amount.
    InsufficientFunds,
    /// Crediting would push a balance past the largest representable value.
    BalanceOverflow,
}

} // verus!
