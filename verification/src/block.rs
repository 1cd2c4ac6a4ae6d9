//! Blocks: an ordered batch of transactions, chained to the predecessor by
//! hash, with the block's own committed hash.

use vstd::prelude::*;
use crate::hashing::{blake2b, blake2b_of, enc_u128, encode_u128, lemma_enc_u128_injective,
    lemma_enc_u128_len};
use crate::transaction::{tx_hash, Transaction, TxView};

verus! {

/// One block. `hash` is the committed hash, set exactly once when the block
/// is created (mined); `prev_hash` is `None` only for the genesis block.
/// `nonce` is the proof-of-work search value: opaque here beyond being part
/// of the hashed payload.
#[derive(Debug, Clone)]
pub struct Block {
    pub transactions: Vec<Transaction>,
    pub prev_hash: Option<Vec<u8>>,
    pub hash: Option<Vec<u8>>,
    pub nonce: u128,
}

/// Mathematical model of a block.
pub struct BlockView {
    pub transactions: Seq<TxView>,
    pub prev_hash: Option<Seq<u8>>,
    pub hash: Option<Seq<u8>>,
    pub nonce: u128,
}

/// The view of a sequence of transactions.
pub open spec fn txs_view(v: Seq<Transaction>) -> Seq<TxView> {
    v.map_values(|t: Transaction| t@)
}

/// The view of an optional byte string.
pub open spec fn opt_bytes_view(o: Option<Vec<u8>>) -> Option<Seq<u8>> {
    match o {
        Option::Some(h) => Option::Some(h@),
        Option::None => Option::None,
    }
}

impl View for Block {
    type V = BlockView;

    open spec fn view(&self) -> BlockView {
        BlockView {
            transactions: txs_view(self.transactions@),
            prev_hash: opt_bytes_view(self.prev_hash),
            hash: opt_bytes_view(self.hash),
            nonce: self.nonce,
        }
    }
}

/// The content hashes of the given transactions, concatenated in sequence
/// order.
pub open spec fn hashes_concat(txs: Seq<TxView>) -> Seq<u8>
    decreases txs.len(),
{
    if txs.len() == 0 {
        Seq::empty()
    } else {
        hashes_concat(txs.drop_last()) + tx_hash(txs.last())
    }
}

/// Canonical encoding of the optional predecessor hash: a presence tag byte,
/// then the digest bytes themselves.
pub open spec fn enc_prev_hash(p: Option<Seq<u8>>) -> Seq<u8> {
    match p {
        Option::None => seq![0u8],
        Option::Some(h) => seq![1u8] + h,
    }
}

/// The bytes a block's hash is computed over: each transaction's digest in
/// sequence order, then the predecessor hash, then the proof-of-work nonce.
pub open spec fn block_payload(txs: Seq<TxView>, prev: Option<Seq<u8>>, nonce: u128) -> Seq<u8> {
    hashes_concat(txs) + enc_prev_hash(prev) + enc_u128(nonce)
}

/// The hash a block commits to. It covers the transactions, the predecessor
/// link and the nonce, but never the committed hash itself.
pub open spec fn block_hash(b: BlockView) -> Seq<u8> {
    blake2b_of(block_payload(b.transactions, b.prev_hash, b.nonce))
}

/// A block's committed hash is present and matches a fresh recomputation
/// from its current contents.
pub open spec fn own_hash_ok(b: BlockView) -> bool {
    &&& b.hash is Some
    &&& b.hash.unwrap() == block_hash(b)
}

impl Block {
    /// Recomputes the block hash from the block's current transactions,
    /// predecessor link and nonce; the stored `hash` field plays no part.
    pub fn calculate_hash(&self) -> (r: Vec<u8>)
        ensures
            r@ == block_hash(self@),
            r@.len() == 64,
    {
        let mut buf: Vec<u8> = Vec::new();
        let mut i: usize = 0;
        while i < self.transactions.len()
            invariant
                i <= self.transactions@.len(),
                buf@ == hashes_concat(txs_view(self.transactions@).take(i as int)),
            decreases self.transactions@.len() - i,
        {
            let mut h = self.transactions[i].calculate_hash();
            buf.append(&mut h);
            i = i + 1;
            proof {
                let full = txs_view(self.transactions@);
                assert(full.take(i as int).drop_last() =~= full.take(i - 1));
                assert(full.take(i as int).last() == full[i - 1]);
            }
        }
        proof {
            assert(txs_view(self.transactions@).take(self.transactions@.len() as int) =~= txs_view(
                self.transactions@,
            ));
        }
        match &self.prev_hash {
            Option::None => {
                buf.push(0u8);
            },
            Option::Some(h) => {
                buf.push(1u8);
                let mut hv = vstd::slice::slice_to_vec(h.as_slice());
                buf.append(&mut hv);
            },
        }
        encode_u128(&mut buf, self.nonce);
        proof {
            assert(buf@ =~= block_payload(self@.transactions, self@.prev_hash, self@.nonce));
        }
        blake2b(buf.as_slice())
    }

    /// True iff the committed hash is present and equals a fresh
    /// recomputation from the block's current contents; a block whose `hash`
    /// is `None` is never valid.
    pub fn verify_own_hash(&self) -> (r: bool)
        ensures
            r == own_hash_ok(self@),
    {
        match &self.hash {
            Option::None => false,
            Option::Some(stored) => {
                let fresh = self.calculate_hash();
                let eq = bytes_eq(stored, &fresh);
                eq
            },
        }
    }

    /// Creates (mines) a block: the committed hash is computed from the
    /// given contents exactly once, here.
    pub fn new(transactions: Vec<Transaction>, prev_hash: Option<Vec<u8>>, nonce: u128) -> (r:
        Block)
        ensures
            r@.transactions == txs_view(transactions@),
            r@.prev_hash == opt_bytes_view(prev_hash),
            r@.nonce == nonce,
            r@.hash == Option::Some(block_hash(r@)),
            own_hash_ok(r@),
    {
        let mut b = Block { transactions, prev_hash, hash: Option::None, nonce };
        let h = b.calculate_hash();
        b.hash = Option::Some(h);
        b
    }
}

/// Byte-exact comparison of two digests; no normalization of any kind.
pub fn bytes_eq(a: &Vec<u8>, b: &Vec<u8>) -> (r: bool)
    ensures
        r == (a@ == b@),
{
    if a.len() != b.len() {
        return false;
    }
    let mut i: usize = 0;
    while i < a.len()
        invariant
            a@.len() == b@.len(),
            i <= a@.len(),
            forall|j: int| 0 <= j < i ==> a@[j] == b@[j],
        decreases a@.len() - i,
    {
        if a[i] != b[i] {
            return false;
        }
        i = i + 1;
    }
    proof {
        assert(a@ =~= b@);
    }
    true
}

/// The proof-of-work nonce always enters the hashed payload: two blocks with
/// the same transactions and the same predecessor but different nonces are
/// hashed over different bytes.
pub proof fn lemma_nonce_affects_payload(
    txs: Seq<TxView>,
    prev: Option<Seq<u8>>,
    n1: u128,
    n2: u128,
)
    requires
        n1 != n2,
    ensures
        block_payload(txs, prev, n1) != block_payload(txs, prev, n2),
{
    lemma_enc_u128_len(n1);
    lemma_enc_u128_len(n2);
    lemma_enc_u128_injective(n1, n2);
    let pre = hashes_concat(txs) + enc_prev_hash(prev);
    let p1 = block_payload(txs, prev, n1);
    let p2 = block_payload(txs, prev, n2);
    if p1 == p2 {
        assert(enc_u128(n1) =~= p1.subrange(pre.len() as int, p1.len() as int));
        assert(enc_u128(n2) =~= p2.subrange(pre.len() as int, p2.len() as int));
        assert(false);
    }
}

} // verus!
