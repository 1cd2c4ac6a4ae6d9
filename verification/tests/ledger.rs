//! Ledger behaviour: validation, atomic application, chain discipline.

use rustychain::account::{Account, AccountType};
use rustychain::block::Block;
use rustychain::chain::Blockchain;
use rustychain::errors::LedgerError;
use rustychain::transaction::{Transaction, TransactionData};
use rustychain::validator::apply_transaction;
use rustychain::world_state::WorldState;

fn boot(id: &str, nonce: u128) -> Transaction {
    Transaction {
        nonce,
        from: id.to_string(),
        created_at: 1,
        record: TransactionData::CreateUserAccount(id.to_string()),
        signature: None,
    }
}

fn signed(nonce: u128, from: &str, record: TransactionData) -> Transaction {
    Transaction {
        nonce,
        from: from.to_string(),
        created_at: 2,
        record,
        signature: Some("sig".to_string()),
    }
}

fn mint(nonce: u128, from: &str, receiver: &str, amount: u128) -> Transaction {
    signed(nonce, from, TransactionData::CreateTokens { receiver: receiver.to_string(), amount })
}

fn transfer(nonce: u128, from: &str, to: &str, amount: u128) -> Transaction {
    signed(nonce, from, TransactionData::TransferTokens { to: to.to_string(), amount })
}

fn tokens_of(ws: &WorldState, id: &str) -> u128 {
    ws.get_account_by_id(&id.to_string()).unwrap().tokens
}

/// A world with accounts `a` (100 tokens) and `b` (0 tokens); `a`'s next
/// nonce is 3, `b`'s is 2.
fn world_a100_b0() -> WorldState {
    let mut ws = WorldState::new();
    assert!(apply_transaction(&mut ws, &boot("a", 1)).is_ok());
    assert!(apply_transaction(&mut ws, &boot("b", 1)).is_ok());
    assert!(apply_transaction(&mut ws, &mint(2, "a", "a", 100)).is_ok());
    assert_eq!(tokens_of(&ws, "a"), 100);
    assert_eq!(tokens_of(&ws, "b"), 0);
    ws
}

#[test]
fn account_new_is_empty() {
    let a = Account::new(AccountType::User);
    assert_eq!(a.tokens, 0);
    assert_eq!(a.last_nonce, 0);
    assert!(a.store.is_empty());
}

#[test]
fn create_account_registers_once() {
    let mut ws = WorldState::new();
    assert!(ws.create_account("a".to_string(), AccountType::User).is_ok());
    assert_eq!(
        ws.create_account("a".to_string(), AccountType::Contract),
        Err(LedgerError::AccountExists)
    );
    assert_eq!(ws.get_user_ids(), vec!["a".to_string()]);
    assert!(ws.get_account_by_id(&"b".to_string()).is_none());
}

#[test]
fn bootstrap_needs_matching_sender() {
    let mut ws = WorldState::new();
    let mut tx = boot("a", 1);
    tx.from = "someone-else".to_string();
    assert_eq!(apply_transaction(&mut ws, &tx), Err(LedgerError::UnknownSender));
    assert!(ws.get_user_ids().is_empty());
}

#[test]
fn nonce_must_be_last_plus_one() {
    let mut ws = world_a100_b0();
    // replay (nonce 2 again) and a gap (nonce 5) are both refused
    assert_eq!(apply_transaction(&mut ws, &mint(2, "a", "a", 1)), Err(LedgerError::NonceMismatch));
    assert_eq!(apply_transaction(&mut ws, &mint(5, "a", "a", 1)), Err(LedgerError::NonceMismatch));
    assert_eq!(tokens_of(&ws, "a"), 100);
    // the matching nonce is accepted
    assert!(apply_transaction(&mut ws, &mint(3, "a", "a", 1)).is_ok());
    assert_eq!(tokens_of(&ws, "a"), 101);
}

#[test]
fn nonce_at_maximum_blocks_the_account() {
    let mut ws = WorldState::new();
    assert!(apply_transaction(&mut ws, &boot("a", u128::MAX)).is_ok());
    assert_eq!(apply_transaction(&mut ws, &mint(1, "a", "a", 1)), Err(LedgerError::NonceMismatch));
    assert_eq!(apply_transaction(&mut ws, &mint(0, "a", "a", 1)), Err(LedgerError::NonceMismatch));
}

#[test]
fn signature_required_and_non_empty() {
    let mut ws = world_a100_b0();
    let mut tx = mint(3, "a", "a", 1);
    tx.signature = None;
    assert_eq!(apply_transaction(&mut ws, &tx), Err(LedgerError::MissingSignature));
    tx.signature = Some(String::new());
    assert_eq!(apply_transaction(&mut ws, &tx), Err(LedgerError::MissingSignature));
    assert_eq!(tokens_of(&ws, "a"), 100);
}

#[test]
fn create_user_account_for_existing_id_fails() {
    let mut ws = world_a100_b0();
    let tx = signed(3, "a", TransactionData::CreateUserAccount("b".to_string()));
    assert_eq!(apply_transaction(&mut ws, &tx), Err(LedgerError::AccountExists));
    // creating a genuinely new account from an existing sender works
    let tx = signed(3, "a", TransactionData::CreateUserAccount("c".to_string()));
    assert!(apply_transaction(&mut ws, &tx).is_ok());
    assert_eq!(tokens_of(&ws, "c"), 0);
}

#[test]
fn change_store_value_sets_the_key() {
    let mut ws = world_a100_b0();
    let tx = signed(
        3,
        "a",
        TransactionData::ChangeStoreValue { key: "k".to_string(), value: "v1".to_string() },
    );
    assert!(apply_transaction(&mut ws, &tx).is_ok());
    let tx = signed(
        4,
        "a",
        TransactionData::ChangeStoreValue { key: "k".to_string(), value: "v2".to_string() },
    );
    assert!(apply_transaction(&mut ws, &tx).is_ok());
    let store = &ws.get_account_by_id(&"a".to_string()).unwrap().store;
    assert_eq!(store, &vec![("k".to_string(), "v2".to_string())]);
    assert_eq!(tokens_of(&ws, "a"), 100);
}

#[test]
fn transfer_conserves_tokens() {
    let mut ws = world_a100_b0();
    assert!(apply_transaction(&mut ws, &transfer(3, "a", "b", 40)).is_ok());
    assert_eq!(tokens_of(&ws, "a"), 60);
    assert_eq!(tokens_of(&ws, "b"), 40);
}

#[test]
fn transfer_example_and_insufficient_funds() {
    // accounts {a: 100, b: 0}; transferring 40 yields {a: 60, b: 40};
    // a further transfer of 100 fails and the state stays {a: 60, b: 40}
    let mut ws = world_a100_b0();
    assert!(apply_transaction(&mut ws, &transfer(3, "a", "b", 40)).is_ok());
    assert_eq!(
        apply_transaction(&mut ws, &transfer(4, "a", "b", 100)),
        Err(LedgerError::InsufficientFunds)
    );
    assert_eq!(tokens_of(&ws, "a"), 60);
    assert_eq!(tokens_of(&ws, "b"), 40);
}

#[test]
fn transfer_to_unknown_recipient_fails() {
    let mut ws = world_a100_b0();
    assert_eq!(
        apply_transaction(&mut ws, &transfer(3, "a", "nobody", 1)),
        Err(LedgerError::UnknownRecipient)
    );
    assert_eq!(tokens_of(&ws, "a"), 100);
}

#[test]
fn transfer_to_self_keeps_the_balance() {
    let mut ws = world_a100_b0();
    assert!(apply_transaction(&mut ws, &transfer(3, "a", "a", 70)).is_ok());
    assert_eq!(tokens_of(&ws, "a"), 100);
    assert_eq!(
        apply_transaction(&mut ws, &transfer(4, "a", "a", 101)),
        Err(LedgerError::InsufficientFunds)
    );
}

#[test]
fn unknown_sender_is_refused() {
    let mut ws = world_a100_b0();
    assert_eq!(
        apply_transaction(&mut ws, &transfer(1, "ghost", "a", 1)),
        Err(LedgerError::UnknownSender)
    );
}

#[test]
fn mint_to_unknown_recipient_fails() {
    let mut ws = world_a100_b0();
    assert_eq!(
        apply_transaction(&mut ws, &mint(3, "a", "nobody", 1)),
        Err(LedgerError::UnknownRecipient)
    );
}

#[test]
fn minting_past_the_balance_limit_overflows() {
    let mut ws = world_a100_b0();
    assert_eq!(
        apply_transaction(&mut ws, &mint(3, "a", "a", u128::MAX)),
        Err(LedgerError::BalanceOverflow)
    );
    assert!(apply_transaction(&mut ws, &mint(3, "a", "b", u128::MAX - 100)).is_ok());
    assert!(apply_transaction(&mut ws, &mint(4, "a", "a", 200)).is_ok());
    assert_eq!(
        apply_transaction(&mut ws, &transfer(5, "a", "b", 150)),
        Err(LedgerError::BalanceOverflow)
    );
    assert_eq!(tokens_of(&ws, "a"), 300);
    assert_eq!(tokens_of(&ws, "b"), u128::MAX - 100);
}

#[test]
fn genesis_block_must_have_no_prev_hash() {
    let mut chain = Blockchain::new();
    let wrong = Block::new(vec![boot("a", 1)], Some(vec![7u8; 64]), 0);
    assert_eq!(chain.append_block(wrong), Err(LedgerError::NotGenesis));
    assert!(chain.blocks.is_empty());

    let genesis = Block::new(vec![boot("a", 1)], None, 0);
    assert!(chain.append_block(genesis).is_ok());
    assert_eq!(chain.blocks.len(), 1);

    // once a block is committed, a block without a predecessor is refused
    let late_genesis = Block::new(vec![], None, 1);
    assert_eq!(chain.append_block(late_genesis), Err(LedgerError::BrokenChain));

    // and so is one that links to the wrong predecessor
    let mislinked = Block::new(vec![], Some(vec![0u8; 64]), 1);
    assert_eq!(chain.append_block(mislinked), Err(LedgerError::BrokenChain));
    assert_eq!(chain.blocks.len(), 1);
}

#[test]
fn block_with_wrong_or_missing_hash_is_refused() {
    let mut chain = Blockchain::new();
    let mut block = Block::new(vec![boot("a", 1)], None, 0);
    block.nonce = 99; // breaks the committed hash
    assert_eq!(chain.append_block(block), Err(LedgerError::HashMismatch));
    let mut block = Block::new(vec![boot("a", 1)], None, 0);
    block.hash = None;
    assert_eq!(chain.append_block(block), Err(LedgerError::HashMismatch));
    assert!(chain.blocks.is_empty());
}

#[test]
fn append_block_is_atomic() {
    // one valid transfer followed by one that lacks funds: neither effect
    // may be visible after the refusal
    let mut chain = Blockchain::new();
    let genesis = Block::new(
        vec![boot("a", 1), boot("b", 1), mint(2, "a", "a", 100)],
        None,
        0,
    );
    assert!(chain.append_block(genesis).is_ok());
    let prev = chain.blocks[0].hash.clone();
    let t1 = transfer(3, "a", "b", 10);
    let t2 = transfer(4, "a", "b", 1000);
    let block = Block::new(vec![t1, t2], prev, 1);
    assert_eq!(chain.append_block(block), Err(LedgerError::InsufficientFunds));
    assert_eq!(chain.blocks.len(), 1);
    assert_eq!(tokens_of(&chain.accounts, "a"), 100);
    assert_eq!(tokens_of(&chain.accounts, "b"), 0);
}

#[test]
fn commit_applies_in_order_and_prunes_pending() {
    let mut chain = Blockchain::new();
    let t_boot_a = boot("a", 1);
    let t_boot_b = boot("b", 1);
    let t_mint = mint(2, "a", "a", 100);
    let t_pay = transfer(3, "a", "b", 30);
    let t_later = transfer(4, "a", "b", 1);
    chain.submit_transaction(t_boot_a.clone());
    chain.submit_transaction(t_boot_b.clone());
    chain.submit_transaction(t_mint.clone());
    chain.submit_transaction(t_pay.clone());
    chain.submit_transaction(t_later.clone());
    assert_eq!(chain.pending_transactions.len(), 5);

    let block = Block::new(vec![t_boot_a, t_boot_b, t_mint, t_pay], None, 0);
    assert!(chain.append_block(block).is_ok());
    assert_eq!(tokens_of(&chain.accounts, "a"), 70);
    assert_eq!(tokens_of(&chain.accounts, "b"), 30);
    assert_eq!(chain.pending_transactions.len(), 1);
    assert!(chain.pending_transactions[0].equals(&t_later));

    // the chain extends only through the true predecessor hash
    let prev = chain.blocks[0].hash.clone();
    let block2 = Block::new(vec![t_later], prev, 7);
    assert!(chain.append_block(block2).is_ok());
    assert_eq!(chain.blocks.len(), 2);
    assert!(chain.pending_transactions.is_empty());
    assert_eq!(tokens_of(&chain.accounts, "a"), 69);
    assert_eq!(tokens_of(&chain.accounts, "b"), 31);
}

#[test]
fn transaction_equality_is_structural() {
    let a = transfer(3, "a", "b", 40);
    assert!(a.equals(&a.clone()));
    let mut b = a.clone();
    b.nonce = 4;
    assert!(!a.equals(&b));
    let mut c = a.clone();
    c.signature = Some("other".to_string());
    assert!(!a.equals(&c));
    let d = mint(3, "a", "b", 40);
    assert!(!a.equals(&d));
}

#[test]
fn user_ids_follow_registration_order() {
    let mut ws = WorldState::new();
    assert!(ws.create_account("a".to_string(), AccountType::User).is_ok());
    assert!(ws.create_account("b".to_string(), AccountType::Contract).is_ok());
    assert!(ws
        .create_account(
            "v".to_string(),
            AccountType::Validator {
                correctly_validated_blocks: 0,
                incorrectly_validated_blocks: 0,
            },
        )
        .is_ok());
    assert_eq!(ws.get_user_ids(), vec!["a".to_string(), "b".to_string(), "v".to_string()]);
}
