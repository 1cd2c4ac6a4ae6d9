//! Transactions: the records a block carries, their canonical encoding and
//! their content hash.

use vstd::prelude::*;
use crate::hashing::{blake2b, blake2b_of, enc_str, enc_u128, encode_string, encode_u128};

verus! {

/// What a transaction does, as a tagged sum.
#[derive(Debug, Clone, PartialEq)]
pub enum TransactionData {
    /// Registers a new user account under the given identifier.
    CreateUserAccount(String),
    /// Sets `store[key] = value` on the sender's account.
    ChangeStoreValue { key: String, value: String },
    /// Moves `amount` tokens from the sender to `to`.
    TransferTokens { to: String, amount: u128 },
    /// Mints `amount` fresh tokens into `receiver`'s balance.
    CreateTokens { receiver: String, amount: u128 },
}

/// Mathematical model of a transaction record.
pub enum RecordView {
    CreateUserAccount { id: Seq<char> },
    ChangeStoreValue { key: Seq<char>, value: Seq<char> },
    TransferTokens { to: Seq<char>, amount: u128 },
    CreateTokens { receiver: Seq<char>, amount: u128 },
}

impl View for TransactionData {
    type V = RecordView;

    open spec fn view(&self) -> RecordView {
        match self {
            TransactionData::CreateUserAccount(id) => RecordView::CreateUserAccount {
                id: id@,
            },
            TransactionData::ChangeStoreValue { key, value } => RecordView::ChangeStoreValue {
                key: key@,
                value: value@,
            },
            TransactionData::TransferTokens { to, amount } => RecordView::TransferTokens {
                to: to@,
                amount: *amount,
            },
            TransactionData::CreateTokens { receiver, amount } => RecordView::CreateTokens {
                receiver: receiver@,
                amount: *amount,
            },
        }
    }
}

/// One transaction. `created_at` is an advisory timestamp supplied by the
/// caller's clock; it enters the content hash but is never validated against
/// any bound. The signature is kept apart from the hashed payload.
#[derive(Debug, Clone)]
pub struct Transaction {
    pub nonce: u128,
    pub from: String,
    pub created_at: u128,
    pub record: TransactionData,
    pub signature: Option<String>,
}

/// Mathematical model of a transaction.
pub struct TxView {
    pub nonce: u128,
    pub from: Seq<char>,
    pub created_at: u128,
    pub record: RecordView,
    pub signature: Option<Seq<char>>,
}

/// The view of an optional string.
pub open spec fn opt_str_view(o: Option<String>) -> Option<Seq<char>> {
    match o {
        Option::Some(s) => Option::Some(s@),
        Option::None => Option::None,
    }
}

impl View for Transaction {
    type V = TxView;

    open spec fn view(&self) -> TxView {
        TxView {
            nonce: self.nonce,
            from: self.from@,
            created_at: self.created_at,
            record: self.record@,
            signature: opt_str_view(self.signature),
        }
    }
}

/// Canonical encoding of a record: a tag byte, then each field in order.
pub open spec fn enc_record(r: RecordView) -> Seq<u8> {
    match r {
        RecordView::CreateUserAccount { id } => seq![0u8] + enc_str(id),
        RecordView::ChangeStoreValue { key, value } => seq![1u8] + enc_str(key) + enc_str(value),
        RecordView::TransferTokens { to, amount } => seq![2u8] + enc_str(to) + enc_u128(amount),
        RecordView::CreateTokens { receiver, amount } => seq![3u8] + enc_str(receiver) + enc_u128(
            amount,
        ),
    }
}

/// Canonical encoding of the hashed payload of a transaction:
/// `(created_at, record, from, nonce)`. The signature is excluded; it signs
/// this same payload and is verified separately, never hashed into itself.
pub open spec fn enc_tx(t: TxView) -> Seq<u8> {
    enc_u128(t.created_at) + enc_record(t.record) + enc_str(t.from) + enc_u128(t.nonce)
}

/// The content hash of a transaction.
pub open spec fn tx_hash(t: TxView) -> Seq<u8> {
    blake2b_of(enc_tx(t))
}

impl TransactionData {
    /// Appends the canonical encoding of this record to `out`.
    fn encode(&self, out: &mut Vec<u8>)
        ensures
            final(out)@ == old(out)@ + enc_record(self@),
    {
        match self {
            TransactionData::CreateUserAccount(id) => {
                out.push(0u8);
                encode_string(out, id);
            },
            TransactionData::ChangeStoreValue { key, value } => {
                out.push(1u8);
                encode_string(out, key);
                encode_string(out, value);
            },
            TransactionData::TransferTokens { to, amount } => {
                out.push(2u8);
                encode_string(out, to);
                encode_u128(out, *amount);
            },
            TransactionData::CreateTokens { receiver, amount } => {
                out.push(3u8);
                encode_string(out, receiver);
                encode_u128(out, *amount);
            },
        }
        proof {
            assert(out@ =~= old(out)@ + enc_record(self@));
        }
    }
}

impl Transaction {
    /// Recomputes the content hash from the transaction's fields; nothing is
    /// cached, so the result always reflects the current payload.
    pub fn calculate_hash(&self) -> (r: Vec<u8>)
        ensures
            r@ == tx_hash(self@),
            r@.len() == 64,
    {
        let mut buf: Vec<u8> = Vec::new();
        encode_u128(&mut buf, self.created_at);
        self.record.encode(&mut buf);
        encode_string(&mut buf, &self.from);
        encode_u128(&mut buf, self.nonce);
        proof {
            assert(buf@ =~= enc_tx(self@));
        }
        blake2b(buf.as_slice())
    }

    /// Structural equality, decided at the level of the models.
    pub fn equals(&self, other: &Transaction) -> (r: bool)
        ensures
            r == (self@ == other@),
    {
        if self.nonce != other.nonce || self.created_at != other.created_at {
            return false;
        }
        if !(self.from == other.from) {
            return false;
        }
        let sig_eq = match (&self.signature, &other.signature) {
            (Option::None, Option::None) => true,
            (Option::Some(a), Option::Some(b)) => *a == *b,
            _ => false,
        };
        if !sig_eq {
            return false;
        }
        match (&self.record, &other.record) {
            (TransactionData::CreateUserAccount(a), TransactionData::CreateUserAccount(b)) => (
            *a == *b),
            (
                TransactionData::ChangeStoreValue { key: k1, value: v1 },
                TransactionData::ChangeStoreValue { key: k2, value: v2 },
            ) => *k1 == *k2 && *v1 == *v2,
            (
                TransactionData::TransferTokens { to: t1, amount: a1 },
                TransactionData::TransferTokens { to: t2, amount: a2 },
            ) => *t1 == *t2 && *a1 == *a2,
            (
                TransactionData::CreateTokens { receiver: r1, amount: a1 },
                TransactionData::CreateTokens { receiver: r2, amount: a2 },
            ) => *r1 == *r2 && *a1 == *a2,
            _ => false,
        }
    }
}

} // verus!
