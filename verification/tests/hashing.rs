//! Hashing behaviour: content hashes, block hashes, tamper detection.

use blake2::{Blake2b512, Digest};
use rustychain::block::Block;
use rustychain::hashing::{encode_string, encode_u128};
use rustychain::transaction::{Transaction, TransactionData};

fn tx_transfer(nonce: u128, from: &str, to: &str, amount: u128) -> Transaction {
    Transaction {
        nonce,
        from: from.to_string(),
        created_at: 11,
        record: TransactionData::TransferTokens { to: to.to_string(), amount },
        signature: Some("sig".to_string()),
    }
}

#[test]
fn transaction_hash_matches_blake2b_of_canonical_encoding() {
    let tx = tx_transfer(3, "alice", "bob", 40);
    // rebuild the canonical payload with the library's own encoders:
    // created_at, record (tag + fields), from, nonce
    let mut buf: Vec<u8> = Vec::new();
    encode_u128(&mut buf, 11);
    buf.push(2u8);
    encode_string(&mut buf, &"bob".to_string());
    encode_u128(&mut buf, 40);
    encode_string(&mut buf, &"alice".to_string());
    encode_u128(&mut buf, 3);
    let expected: Vec<u8> = Blake2b512::digest(&buf).to_vec();
    assert_eq!(tx.calculate_hash(), expected);
    assert_eq!(expected.len(), 64);
}

#[test]
fn transaction_hash_excludes_signature() {
    let mut a = tx_transfer(3, "alice", "bob", 40);
    let mut b = tx_transfer(3, "alice", "bob", 40);
    a.signature = Some("one".to_string());
    b.signature = None;
    assert_eq!(a.calculate_hash(), b.calculate_hash());
}

#[test]
fn verify_own_hash_accepts_fresh_block_and_rejects_tampering() {
    let block = Block::new(vec![tx_transfer(1, "alice", "bob", 5)], None, 42);
    assert!(block.verify_own_hash());

    // a block whose hash is absent is never valid
    let mut unhashed = block.clone();
    unhashed.hash = None;
    assert!(!unhashed.verify_own_hash());

    // changing a transaction invalidates the committed hash
    let mut tampered = block.clone();
    tampered.transactions[0].record = TransactionData::TransferTokens {
        to: "mallory".to_string(),
        amount: 5,
    };
    assert!(!tampered.verify_own_hash());

    // changing the nonce invalidates the committed hash
    let mut renonced = block.clone();
    renonced.nonce = 43;
    assert!(!renonced.verify_own_hash());

    // recomputation always reflects the current contents
    assert_eq!(tampered.calculate_hash(), tampered.calculate_hash());
    assert_ne!(tampered.calculate_hash(), block.calculate_hash());
}

#[test]
fn nonce_changes_the_block_hash() {
    let txs = vec![tx_transfer(1, "alice", "bob", 5)];
    let a = Block::new(txs.clone(), None, 1);
    let b = Block::new(txs, None, 2);
    assert_ne!(a.hash, b.hash);
}

#[test]
fn block_hash_depends_on_transaction_order() {
    let t1 = tx_transfer(1, "alice", "bob", 5);
    let t2 = tx_transfer(2, "alice", "bob", 6);
    let a = Block::new(vec![t1.clone(), t2.clone()], None, 1);
    let b = Block::new(vec![t2, t1], None, 1);
    assert_ne!(a.hash, b.hash);
}

#[test]
fn block_hash_depends_on_prev_hash() {
    let txs = vec![tx_transfer(1, "alice", "bob", 5)];
    let a = Block::new(txs.clone(), None, 1);
    let b = Block::new(txs, Some(vec![0u8; 64]), 1);
    assert_ne!(a.hash, b.hash);
}
