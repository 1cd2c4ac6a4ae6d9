//! Transaction validation and application: decides acceptance of exactly one
//! transaction against the world state and applies it atomically — a failed
//! transaction never leaves a partial mutation behind.
//!
//! Policy choices this crate documents rather than leaves implicit:
//! bootstrap self-registration (`CreateUserAccount` whose target equals its
//! sender, the sender not yet existing) is exempt from the nonce and
//! signature preconditions; cryptographic signature verification is an
//! external capability of the caller, the core enforces that a signature is
//! present and non-empty where one is required; who may mint via
//! `CreateTokens` is an external authorization rule, not enforced here.

use vstd::prelude::*;
use crate::account::{fresh_account, Account, AccountType, AccountView};
use crate::errors::LedgerError;
use crate::transaction::{RecordView, Transaction, TransactionData, TxView};
use crate::world_state::WorldState;

verus! {

/// A signature is present and non-empty.
pub open spec fn signature_present(sig: Option<Seq<char>>) -> bool {
    match sig {
        Option::Some(s) => s.len() > 0,
        Option::None => false,
    }
}

/// The bootstrap case: a not-yet-existing identity registers itself. Only
/// this transaction shape is valid without a pre-existing sender.
pub open spec fn is_bootstrap(m: Map<Seq<char>, AccountView>, tx: TxView) -> bool {
    &&& !m.contains_key(tx.from)
    &&& match tx.record {
        RecordView::CreateUserAccount { id } => id == tx.from,
        _ => false,
    }
}

/// How many tokens the record mints; zero for everything but `CreateTokens`.
pub open spec fn minted(r: RecordView) -> int {
    match r {
        RecordView::CreateTokens { receiver, amount } => amount as int,
        _ => 0,
    }
}

/// The effect of the record itself, applied to a state in which the sender's
/// nonce has already advanced.
pub open spec fn apply_record(m: Map<Seq<char>, AccountView>, from: Seq<char>, r: RecordView) -> Result<
    Map<Seq<char>, AccountView>,
    LedgerError,
> {
    match r {
        RecordView::CreateUserAccount { id } => if m.contains_key(id) {
            Result::Err(LedgerError::AccountExists)
        } else {
            Result::Ok(m.insert(id, fresh_account(AccountType::User)))
        },
        RecordView::ChangeStoreValue { key, value } => {
            let sender = m[from];
            Result::Ok(m.insert(from, AccountView { store: sender.store.insert(key, value), ..sender }))
        },
        RecordView::TransferTokens { to, amount } => {
            let sender = m[from];
            if sender.tokens < amount {
                Result::Err(LedgerError::InsufficientFunds)
            } else if !m.contains_key(to) {
                Result::Err(LedgerError::UnknownRecipient)
            } else {
                let m2 = m.insert(from, AccountView { tokens: (sender.tokens - amount) as u128, ..sender });
                let recv = m2[to];
                if recv.tokens + amount > u128::MAX {
                    Result::Err(LedgerError::BalanceOverflow)
                } else {
                    Result::Ok(m2.insert(to, AccountView { tokens: (recv.tokens + amount) as u128, ..recv }))
                }
            }
        },
        RecordView::CreateTokens { receiver, amount } => if !m.contains_key(receiver) {
            Result::Err(LedgerError::UnknownRecipient)
        } else {
            let recv = m[receiver];
            if recv.tokens + amount > u128::MAX {
                Result::Err(LedgerError::BalanceOverflow)
            } else {
                Result::Ok(m.insert(receiver, AccountView { tokens: (recv.tokens + amount) as u128, ..recv }))
            }
        },
    }
}

/// The outcome of one transaction against the state `m`: either the next
/// state, or the exact error that refuses it, in the order the checks run —
/// sender existence (with the bootstrap exemption), nonce, signature, then
/// the record's own checks.
pub open spec fn tx_result(m: Map<Seq<char>, AccountView>, tx: TxView) -> Result<
    Map<Seq<char>, AccountView>,
    LedgerError,
> {
    if !m.contains_key(tx.from) {
        if is_bootstrap(m, tx) {
            Result::Ok(m.insert(tx.from, AccountView {
                store: Map::empty(),
                account_type: AccountType::User,
                tokens: 0,
                last_nonce: tx.nonce,
            }))
        } else {
            Result::Err(LedgerError::UnknownSender)
        }
    } else {
        let sender = m[tx.from];
        if tx.nonce as int != sender.last_nonce as int + 1 {
            Result::Err(LedgerError::NonceMismatch)
        } else if !signature_present(tx.signature) {
            Result::Err(LedgerError::MissingSignature)
        } else {
            let m1 = m.insert(tx.from, AccountView { last_nonce: tx.nonce, ..sender });
            apply_record(m1, tx.from, tx.record)
        }
    }
}

/// Validates and applies exactly one transaction. On success the state is
/// the successor that `tx_result` describes; on failure the returned error
/// is the one `tx_result` names and the state is untouched. The total token
/// supply changes only by what `CreateTokens` mints.
pub fn apply_transaction(state: &mut WorldState, tx: &Transaction) -> (r: Result<(), LedgerError>)
    requires
        old(state).wf(),
    ensures
        final(state).wf(),
        (match tx_result(old(state)@, tx@) {
            Result::Ok(m) => r is Ok && final(state)@ == m,
            Result::Err(e) => r == Err::<(), LedgerError>(e) && final(state)@ == old(state)@
                && final(state).accounts@ == old(state).accounts@,
        }),
        r is Ok ==> final(state).supply() == old(state).supply() + minted(tx@.record),
        r is Err ==> final(state).supply() == old(state).supply(),
{
    let ghost m0 = state@;
    if !state.has_account(&tx.from) {
        match &tx.record {
            TransactionData::CreateUserAccount(id) => {
                if *id == tx.from {
                    let mut acct = Account::new(AccountType::User);
                    acct.last_nonce = tx.nonce;
                    state.insert_account(&tx.from, acct);
                    proof {
                        assert(state@ =~= tx_result(m0, tx@)->Ok_0);
                    }
                    Ok(())
                } else {
                    Err(LedgerError::UnknownSender)
                }
            },
            _ => Err(LedgerError::UnknownSender),
        }
    } else {
        let sender_tokens: u128 = state.get_account_by_id(&tx.from).unwrap().tokens;
        let sender_last: u128 = state.get_account_by_id(&tx.from).unwrap().last_nonce;
        let ghost sender_v = m0[tx.from@];
        let nonce_ok = if sender_last == u128::MAX {
            false
        } else {
            tx.nonce == sender_last + 1
        };
        if !nonce_ok {
            return Err(LedgerError::NonceMismatch);
        }
        let sig_ok = match &tx.signature {
            Option::Some(s) => !s.as_str().is_empty(),
            Option::None => false,
        };
        if !sig_ok {
            return Err(LedgerError::MissingSignature);
        }
        let ghost m1 = m0.insert(tx.from@, AccountView { last_nonce: tx.nonce, ..sender_v });
        match &tx.record {
            TransactionData::CreateUserAccount(id) => {
                if state.has_account(id) {
                    return Err(LedgerError::AccountExists);
                }
                let mut upd = state.get_account_by_id(&tx.from).unwrap().duplicate();
                upd.last_nonce = tx.nonce;
                state.insert_account(&tx.from, upd);
                let fresh = Account::new(AccountType::User);
                state.insert_account(id, fresh);
                proof {
                    assert(state@ =~= tx_result(m0, tx@)->Ok_0);
                }
                Ok(())
            },
            TransactionData::ChangeStoreValue { key, value } => {
                let mut upd = state.get_account_by_id(&tx.from).unwrap().duplicate();
                upd.last_nonce = tx.nonce;
                upd.set_store_value(key, value.clone());
                state.insert_account(&tx.from, upd);
                proof {
                    assert(upd@ =~= (AccountView {
                        store: sender_v.store.insert(key@, value@),
                        last_nonce: tx.nonce,
                        ..sender_v
                    }));
                    assert(state@ =~= tx_result(m0, tx@)->Ok_0);
                }
                Ok(())
            },
            TransactionData::TransferTokens { to, amount } => {
                if sender_tokens < *amount {
                    return Err(LedgerError::InsufficientFunds);
                }
                if !state.has_account(to) {
                    return Err(LedgerError::UnknownRecipient);
                }
                let to_is_from = *to == tx.from;
                if to_is_from {
                    let mut upd = state.get_account_by_id(&tx.from).unwrap().duplicate();
                    upd.last_nonce = tx.nonce;
                    state.insert_account(&tx.from, upd);
                    proof {
                        assert(state@ =~= tx_result(m0, tx@)->Ok_0);
                    }
                    Ok(())
                } else {
                    let recv_tokens: u128 = state.get_account_by_id(to).unwrap().tokens;
                    if *amount > u128::MAX - recv_tokens {
                        return Err(LedgerError::BalanceOverflow);
                    }
                    let mut upd = state.get_account_by_id(&tx.from).unwrap().duplicate();
                    upd.last_nonce = tx.nonce;
                    upd.tokens = sender_tokens - *amount;
                    state.insert_account(&tx.from, upd);
                    let mut recv_upd = state.get_account_by_id(to).unwrap().duplicate();
                    recv_upd.tokens = recv_tokens + *amount;
                    state.insert_account(to, recv_upd);
                    proof {
                        assert(state@ =~= tx_result(m0, tx@)->Ok_0);
                    }
                    Ok(())
                }
            },
            TransactionData::CreateTokens { receiver, amount } => {
                if !state.has_account(receiver) {
                    return Err(LedgerError::UnknownRecipient);
                }
                let recv_is_from = *receiver == tx.from;
                let recv_tokens: u128 = if recv_is_from {
                    sender_tokens
                } else {
                    state.get_account_by_id(receiver).unwrap().tokens
                };
                if *amount > u128::MAX - recv_tokens {
                    return Err(LedgerError::BalanceOverflow);
                }
                if recv_is_from {
                    let mut upd = state.get_account_by_id(&tx.from).unwrap().duplicate();
                    upd.last_nonce = tx.nonce;
                    upd.tokens = recv_tokens + *amount;
                    state.insert_account(&tx.from, upd);
                    proof {
                        assert(state@ =~= tx_result(m0, tx@)->Ok_0);
                    }
                } else {
                    let mut upd = state.get_account_by_id(&tx.from).unwrap().duplicate();
                    upd.last_nonce = tx.nonce;
                    state.insert_account(&tx.from, upd);
                    let mut recv_upd = state.get_account_by_id(receiver).unwrap().duplicate();
                    recv_upd.tokens = recv_tokens + *amount;
                    state.insert_account(receiver, recv_upd);
                    proof {
                        assert(state@ =~= tx_result(m0, tx@)->Ok_0);
                    }
                }
                Ok(())
            },
        }
    }
}

/// Nonce monotonicity: a transaction from a registered sender whose nonce is
/// not the sender's last applied nonce plus one is refused with
/// `NonceMismatch` — and, by `apply_transaction`'s contract, a refusal
/// leaves the world state unchanged.
pub proof fn lemma_nonce_monotonicity(m: Map<Seq<char>, AccountView>, tx: TxView)
    requires
        m.contains_key(tx.from),
        tx.nonce as int != m[tx.from].last_nonce as int + 1,
    ensures
        tx_result(m, tx) == Result::<Map<Seq<char>, AccountView>, LedgerError>::Err(
            LedgerError::NonceMismatch,
        ),
{
}

/// Transfer conservation, for a transfer between two distinct accounts:
/// exactly `amount` leaves the sender and exactly `amount` reaches the
/// recipient; every other balance is untouched.
pub proof fn lemma_transfer_conservation(
    m: Map<Seq<char>, AccountView>,
    tx: TxView,
    to: Seq<char>,
    amount: u128,
)
    requires
        tx.record == (RecordView::TransferTokens { to, amount }),
        to != tx.from,
        tx_result(m, tx) is Ok,
    ensures
        m.contains_key(tx.from),
        m.contains_key(to),
        tx_result(m, tx)->Ok_0[tx.from].tokens + amount == m[tx.from].tokens,
        tx_result(m, tx)->Ok_0[to].tokens == m[to].tokens + amount,
        forall|k: Seq<char>|
            m.contains_key(k) && k != tx.from && k != to ==> tx_result(m, tx)->Ok_0[k]
                == m[k],
{
}

/// A transfer from an account to itself is valid exactly like any other
/// transfer, and leaves its single balance unchanged.
pub proof fn lemma_self_transfer(
    m: Map<Seq<char>, AccountView>,
    tx: TxView,
    amount: u128,
)
    requires
        tx.record == (RecordView::TransferTokens { to: tx.from, amount }),
        tx_result(m, tx) is Ok,
    ensures
        m.contains_key(tx.from),
        tx_result(m, tx)->Ok_0[tx.from].tokens == m[tx.from].tokens,
{
}

} // verus!
