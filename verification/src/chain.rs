//! The blockchain: the append-only sequence of blocks and the canonical
//! world state, mutated only by a fully successful block append.

use vstd::prelude::*;
use crate::account::AccountView;
use crate::block::{bytes_eq, own_hash_ok, txs_view, Block, BlockView};
use crate::errors::LedgerError;
use crate::transaction::{Transaction, TxView};
use crate::validator::{apply_transaction, minted, tx_result};
use crate::world_state::WorldState;

verus! {

/// The view of a sequence of blocks.
pub open spec fn blocks_view(s: Seq<Block>) -> Seq<BlockView> {
    s.map_values(|b: Block| b@)
}

/// Chain well-formedness: every committed block carries its correct hash,
/// the first block has no predecessor, and every later block links to the
/// hash of the one before it.
pub open spec fn chain_wf(c: Seq<BlockView>) -> bool {
    &&& forall|i: int| 0 <= i < c.len() ==> own_hash_ok(#[trigger] c[i])
    &&& c.len() > 0 ==> c[0].prev_hash is None
    &&& forall|i: int| 0 < i < c.len() ==> #[trigger] c[i].prev_hash == c[i - 1].hash
}

/// Folds the transactions of a block through `tx_result`, in sequence
/// order; the first refusal refuses the whole batch.
pub open spec fn apply_txs(m: Map<Seq<char>, AccountView>, txs: Seq<TxView>) -> Result<
    Map<Seq<char>, AccountView>,
    LedgerError,
>
    decreases txs.len(),
{
    if txs.len() == 0 {
        Result::Ok(m)
    } else {
        match tx_result(m, txs[0]) {
            Result::Ok(m2) => apply_txs(m2, txs.skip(1)),
            Result::Err(e) => Result::Err(e),
        }
    }
}

/// The tokens minted by a batch of transactions, in total.
pub open spec fn minted_total(txs: Seq<TxView>) -> int
    decreases txs.len(),
{
    if txs.len() == 0 {
        0
    } else {
        minted_total(txs.drop_last()) + minted(txs.last().record)
    }
}

/// What appending a block to a chain decides: the successor world state, or
/// the exact error — the genesis/linkage gate first, then the block's own
/// hash, then the transactions in order.
pub open spec fn append_decision(
    c: Seq<BlockView>,
    m: Map<Seq<char>, AccountView>,
    b: BlockView,
) -> Result<Map<Seq<char>, AccountView>, LedgerError> {
    if c.len() == 0 && !(b.prev_hash is None) {
        Result::Err(LedgerError::NotGenesis)
    } else if c.len() > 0 && b.prev_hash != c.last().hash {
        Result::Err(LedgerError::BrokenChain)
    } else if !own_hash_ok(b) {
        Result::Err(LedgerError::HashMismatch)
    } else {
        apply_txs(m, b.transactions)
    }
}

/// The pending transactions that survive a commit: those not carried by the
/// committed block, keeping their order.
pub open spec fn without_txs(pending: Seq<TxView>, txs: Seq<TxView>) -> Seq<TxView>
    decreases pending.len(),
{
    if pending.len() == 0 {
        Seq::empty()
    } else {
        let rest = without_txs(pending.drop_last(), txs);
        if txs.contains(pending.last()) {
            rest
        } else {
            rest.push(pending.last())
        }
    }
}

/// Whether some transaction of `txs` has the model of `t`.
fn txs_contain(txs: &Vec<Transaction>, t: &Transaction) -> (r: bool)
    ensures
        r == txs_view(txs@).contains(t@),
{
    let mut i: usize = 0;
    while i < txs.len()
        invariant
            i <= txs@.len(),
            forall|j: int| 0 <= j < i ==> txs_view(txs@)[j] != t@,
        decreases txs@.len() - i,
    {
        if txs[i].equals(t) {
            assert(txs_view(txs@)[i as int] == t@);
            return true;
        }
        i = i + 1;
    }
    false
}

/// Applies the block's transactions, in order, to a working copy of `base`;
/// the first refusal refuses the batch and discards the copy.
fn apply_block_txs(base: &WorldState, txs: &Vec<Transaction>) -> (r: Result<
    WorldState,
    LedgerError,
>)
    requires
        base.wf(),
    ensures
        r is Ok <==> apply_txs(base@, txs_view(txs@)) is Ok,
        r is Ok ==> r->Ok_0@ == apply_txs(base@, txs_view(txs@))->Ok_0 && r->Ok_0.wf(),
        r is Ok ==> r->Ok_0.supply() == base.supply() + minted_total(txs_view(txs@)),
        r is Err ==> r->Err_0 == apply_txs(base@, txs_view(txs@))->Err_0,
{
    let ghost tv = txs_view(txs@);
    let mut work = base.deep_clone();
    proof {
        assert(tv.skip(0) =~= tv);
        assert(tv.take(0) =~= Seq::<TxView>::empty());
    }
    let mut i: usize = 0;
    while i < txs.len()
        invariant
            work.wf(),
            i <= txs@.len(),
            tv == txs_view(txs@),
            apply_txs(work@, tv.skip(i as int)) == apply_txs(base@, tv),
            work.supply() == base.supply() + minted_total(tv.take(i as int)),
        decreases txs@.len() - i,
    {
        let ghost work_before = work@;
        let tx = &txs[i];
        proof {
            assert(tv.skip(i as int)[0] == tv[i as int]);
            assert(tv[i as int] == txs@[i as int]@);
            assert(tv.skip(i as int).skip(1) =~= tv.skip(i as int + 1));
        }
        match apply_transaction(&mut work, tx) {
            Result::Err(e) => {
                proof {
                    assert(apply_txs(work_before, tv.skip(i as int)) == Result::<
                        Map<Seq<char>, AccountView>,
                        LedgerError,
                    >::Err(e));
                }
                return Err(e);
            },
            Result::Ok(_) => {},
        }
        i = i + 1;
        proof {
            assert(tv.take(i as int).drop_last() =~= tv.take(i - 1));
            assert(tv.take(i as int).last() == tv[i - 1]);
        }
    }
    proof {
        assert(tv.skip(i as int) =~= Seq::<TxView>::empty());
        assert(tv.take(i as int) =~= tv);
    }
    Ok(work)
}

/// Removes from `pending` every transaction the block carries, keeping the
/// order of those that stay.
fn remove_included(pending: &mut Vec<Transaction>, txs: &Vec<Transaction>)
    ensures
        txs_view(final(pending)@) == without_txs(txs_view(old(pending)@), txs_view(txs@)),
{
    let ghost tv = txs_view(txs@);
    let ghost old_pending = pending@;
    let mut kept: Vec<Transaction> = Vec::new();
    proof {
        assert(old_pending.skip(0) =~= old_pending);
        assert(old_pending.take(0) =~= Seq::<Transaction>::empty());
        assert(txs_view(kept@) =~= Seq::<TxView>::empty());
        assert(txs_view(old_pending.take(0)) =~= Seq::<TxView>::empty());
    }
    while pending.len() > 0
        invariant
            tv == txs_view(txs@),
            pending@.len() <= old_pending.len(),
            pending@ == old_pending.skip(old_pending.len() - pending@.len()),
            txs_view(kept@) == without_txs(
                txs_view(old_pending.take(old_pending.len() - pending@.len())),
                tv,
            ),
        decreases pending@.len(),
    {
        let ghost done = old_pending.len() - pending@.len();
        let t = pending.remove(0);
        proof {
            assert(pending@ =~= old_pending.skip(done + 1));
            assert(old_pending.take(done + 1).drop_last() =~= old_pending.take(done));
            assert(old_pending.take(done + 1).last() == old_pending[done]);
            assert(txs_view(old_pending.take(done + 1)).drop_last() =~= txs_view(
                old_pending.take(done),
            ));
            assert(txs_view(old_pending.take(done + 1)).last() == old_pending[done]@);
        }
        if !txs_contain(txs, &t) {
            kept.push(t);
        }
    }
    proof {
        assert(old_pending.take(old_pending.len() as int) =~= old_pending);
    }
    *pending = kept;
}

/// The chain: the committed blocks (index 0 is genesis), the canonical
/// world state, and the transactions awaiting inclusion.
#[derive(Debug, Clone)]
pub struct Blockchain {
    pub blocks: Vec<Block>,
    pub accounts: WorldState,
    pub pending_transactions: Vec<Transaction>,
}

impl Blockchain {
    /// Accounts well-formed and the block sequence hash-linked.
    pub open spec fn wf(self) -> bool {
        &&& self.accounts.wf()
        &&& chain_wf(blocks_view(self.blocks@))
    }

    /// An empty chain: no blocks, no accounts, nothing pending.
    pub fn new() -> (r: Blockchain)
        ensures
            r.wf(),
            r.blocks@.len() == 0,
            r.accounts@ == Map::<Seq<char>, AccountView>::empty(),
            r.accounts.supply() == 0,
            r.pending_transactions@.len() == 0,
    {
        Blockchain {
            blocks: Vec::new(),
            accounts: WorldState::new(),
            pending_transactions: Vec::new(),
        }
    }

    /// Queues a transaction for inclusion in a later block.
    pub fn submit_transaction(&mut self, tx: Transaction)
        ensures
            final(self).blocks == old(self).blocks,
            final(self).accounts == old(self).accounts,
            final(self).pending_transactions@ == old(self).pending_transactions@.push(tx),
    {
        self.pending_transactions.push(tx);
    }

    /// Verifies the block's linkage and hash, applies its transactions in
    /// order against a working copy of the world state, and commits
    /// all-or-nothing: on any refusal the chain, the accounts and the
    /// pending queue are exactly as before.
    #[verifier::rlimit(100)]
    pub fn append_block(&mut self, block: Block) -> (r: Result<(), LedgerError>)
        requires
            old(self).wf(),
        ensures
            final(self).wf(),
            (match append_decision(
                blocks_view(old(self).blocks@),
                old(self).accounts@,
                block@,
            ) {
                Result::Ok(m) => {
                    &&& r is Ok
                    &&& final(self).blocks@ == old(self).blocks@.push(block)
                    &&& final(self).accounts@ == m
                    &&& txs_view(final(self).pending_transactions@) == without_txs(
                        txs_view(old(self).pending_transactions@),
                        block@.transactions,
                    )
                    &&& final(self).accounts.supply() == old(self).accounts.supply()
                        + minted_total(block@.transactions)
                },
                Result::Err(e) => {
                    &&& r == Err::<(), LedgerError>(e)
                    &&& final(self).blocks@ == old(self).blocks@
                    &&& final(self).accounts@ == old(self).accounts@
                    &&& final(self).accounts.accounts@ == old(self).accounts.accounts@
                    &&& final(self).pending_transactions@ == old(self).pending_transactions@
                },
            }),
    {
        let ghost c0 = blocks_view(self.blocks@);
        if self.blocks.len() == 0 {
            if block.prev_hash.is_some() {
                return Err(LedgerError::NotGenesis);
            }
        } else {
            let last = &self.blocks[self.blocks.len() - 1];
            proof {
                assert(c0.last() == self.blocks@[self.blocks@.len() - 1]@);
                assert(own_hash_ok(c0.last()));
            }
            let link_ok = match (&block.prev_hash, &last.hash) {
                (Option::Some(p), Option::Some(h)) => bytes_eq(p, h),
                _ => false,
            };
            if !link_ok {
                proof {
                    assert(block@.prev_hash != c0.last().hash);
                }
                return Err(LedgerError::BrokenChain);
            }
            proof {
                assert(block@.prev_hash == c0.last().hash);
            }
        }
        if !block.verify_own_hash() {
            return Err(LedgerError::HashMismatch);
        }
        proof {
            assert(!(c0.len() == 0 && !(block@.prev_hash is None)));
            assert(!(c0.len() > 0 && block@.prev_hash != c0.last().hash));
            assert(own_hash_ok(block@));
        }
        let ghost am0 = self.accounts@;
        let ghost txs = txs_view(block.transactions@);
        let work = match apply_block_txs(&self.accounts, &block.transactions) {
            Result::Ok(w) => w,
            Result::Err(e) => {
                proof {
                    assert(block@.transactions == txs);
                    assert(append_decision(c0, am0, block@) == apply_txs(am0, txs));
                }
                return Err(e);
            },
        };
        proof {
            assert(block@.transactions == txs);
            assert(append_decision(c0, am0, block@) == apply_txs(am0, txs));
        }
        // commit: drop the block's transactions from the pending queue,
        // append the block, publish the applied world state
        remove_included(&mut self.pending_transactions, &block.transactions);
        let ghost bv = block@;
        self.blocks.push(block);
        self.accounts = work;
        proof {
            let c1 = blocks_view(self.blocks@);
            assert(c1 =~= c0.push(bv));
            assert forall|k: int| 0 <= k < c1.len() implies own_hash_ok(#[trigger] c1[k]) by {
                if k < c0.len() {
                    assert(own_hash_ok(c0[k]));
                }
            }
            assert forall|k: int| 0 < k < c1.len() implies #[trigger] c1[k].prev_hash == c1[k
                - 1].hash by {
                if k < c0.len() {
                    assert(c0[k].prev_hash == c0[k - 1].hash);
                } else {
                    assert(c1[k] == bv);
                }
            }
            if c0.len() == 0 {
                assert(c1[0] == bv);
            }
            assert(chain_wf(c1));
        }
        Ok(())
    }
}

/// Genesis discipline: an empty chain refuses any block that carries a
/// predecessor hash, and a chain that already holds a block refuses any
/// block that carries none.
pub proof fn lemma_genesis_rules(c: Seq<BlockView>, m: Map<Seq<char>, AccountView>, b: BlockView)
    requires
        chain_wf(c),
    ensures
        c.len() == 0 && b.prev_hash is Some ==> append_decision(c, m, b) == Result::<
            Map<Seq<char>, AccountView>,
            LedgerError,
        >::Err(LedgerError::NotGenesis),
        c.len() > 0 && b.prev_hash is None ==> append_decision(c, m, b) == Result::<
            Map<Seq<char>, AccountView>,
            LedgerError,
        >::Err(LedgerError::BrokenChain),
{
    if c.len() > 0 {
        assert(own_hash_ok(c[c.len() - 1]));
    }
}

} // verus!
