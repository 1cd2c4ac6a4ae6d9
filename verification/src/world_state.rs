//! The world state: the canonical registry of accounts, keyed by identifier,
//! with unique keys. Modelled as a map from identifier to account model.

use vstd::prelude::*;
use crate::account::{fresh_account, Account, AccountType, AccountView};
use crate::errors::LedgerError;

verus! {

/// The canonical account registry. Keys are unique (see `wf`); every
/// mutation goes through the methods below, which preserve that.
#[derive(Debug, Clone)]
pub struct WorldState {
    pub accounts: Vec<(String, Account)>,
}

/// The map that a sequence of identifier-account pairs denotes: later pairs
/// win, though well-formed states never carry a duplicate identifier.
pub open spec fn accounts_map(s: Seq<(String, Account)>) -> Map<Seq<char>, AccountView>
    decreases s.len(),
{
    if s.len() == 0 {
        Map::empty()
    } else {
        accounts_map(s.drop_last()).insert(s.last().0@, s.last().1@)
    }
}

/// The sum of all token balances held in the given pair sequence.
pub open spec fn total_supply(s: Seq<(String, Account)>) -> int
    decreases s.len(),
{
    if s.len() == 0 {
        0
    } else {
        total_supply(s.drop_last()) + s.last().1.tokens
    }
}

impl View for WorldState {
    type V = Map<Seq<char>, AccountView>;

    open spec fn view(&self) -> Map<Seq<char>, AccountView> {
        accounts_map(self.accounts@)
    }
}

/// A key is in the denoted map exactly when some pair carries it.
pub proof fn lemma_accounts_map_contains(s: Seq<(String, Account)>, k: Seq<char>)
    ensures
        accounts_map(s).contains_key(k) <==> (exists|i: int| 0 <= i < s.len() && s[i].0@ == k),
    decreases s.len(),
{
    if s.len() > 0 {
        lemma_accounts_map_contains(s.drop_last(), k);
        if s.last().0@ == k {
            assert(s[s.len() - 1].0@ == k);
        } else {
            if exists|i: int| 0 <= i < s.len() && s[i].0@ == k {
                let i = choose|i: int| 0 <= i < s.len() && s[i].0@ == k;
                assert(s.drop_last()[i].0@ == k);
            }
            if accounts_map(s).contains_key(k) {
                let i = choose|i: int| 0 <= i < s.drop_last().len() && s.drop_last()[i].0@ == k;
                assert(s[i].0@ == k);
            }
        }
    }
}

/// With unique keys, the pair at any index is what the denoted map holds
/// under its key.
pub proof fn lemma_accounts_map_found(s: Seq<(String, Account)>, i: int)
    requires
        forall|a: int, b: int| 0 <= a < b < s.len() ==> s[a].0@ != s[b].0@,
        0 <= i < s.len(),
    ensures
        accounts_map(s).contains_key(s[i].0@),
        accounts_map(s)[s[i].0@] == s[i].1@,
    decreases s.len(),
{
    if i < s.len() - 1 {
        assert(forall|a: int, b: int|
            0 <= a < b < s.drop_last().len() ==> s.drop_last()[a].0@ != s.drop_last()[b].0@);
        lemma_accounts_map_found(s.drop_last(), i);
        assert(s[i].0@ != s.last().0@);
    }
}

/// Replacing the pair at an index, key kept, turns the denoted map into an
/// insert under that key.
pub proof fn lemma_accounts_map_update(s: Seq<(String, Account)>, i: int, p: (String, Account))
    requires
        forall|a: int, b: int| 0 <= a < b < s.len() ==> s[a].0@ != s[b].0@,
        0 <= i < s.len(),
        p.0@ == s[i].0@,
    ensures
        accounts_map(s.update(i, p)) == accounts_map(s).insert(p.0@, p.1@),
    decreases s.len(),
{
    let su = s.update(i, p);
    if i == s.len() - 1 {
        assert(su.drop_last() =~= s.drop_last());
        assert(accounts_map(su) =~= accounts_map(s).insert(p.0@, p.1@));
    } else {
        assert(su.drop_last() =~= s.drop_last().update(i, p));
        assert(forall|a: int, b: int|
            0 <= a < b < s.drop_last().len() ==> s.drop_last()[a].0@ != s.drop_last()[b].0@);
        lemma_accounts_map_update(s.drop_last(), i, p);
        assert(p.0@ != s.last().0@);
        assert(accounts_map(su) =~= accounts_map(s).insert(p.0@, p.1@));
    }
}

/// Appending a pair turns the denoted map into an insert under its key.
pub proof fn lemma_accounts_map_push(s: Seq<(String, Account)>, p: (String, Account))
    ensures
        accounts_map(s.push(p)) == accounts_map(s).insert(p.0@, p.1@),
{
    assert(s.push(p).drop_last() =~= s);
}

/// Replacing the pair at an index changes the supply by the difference of
/// the two balances.
pub proof fn lemma_supply_update(s: Seq<(String, Account)>, i: int, p: (String, Account))
    requires
        0 <= i < s.len(),
    ensures
        total_supply(s.update(i, p)) == total_supply(s) - s[i].1.tokens + p.1.tokens,
    decreases s.len(),
{
    let su = s.update(i, p);
    if i == s.len() - 1 {
        assert(su.drop_last() =~= s.drop_last());
    } else {
        assert(su.drop_last() =~= s.drop_last().update(i, p));
        lemma_supply_update(s.drop_last(), i, p);
        assert(su.last() == s.last());
    }
}

/// Appending a pair adds its balance to the supply.
pub proof fn lemma_supply_push(s: Seq<(String, Account)>, p: (String, Account))
    ensures
        total_supply(s.push(p)) == total_supply(s) + p.1.tokens,
{
    assert(s.push(p).drop_last() =~= s);
}

/// Two pair sequences whose keys and account models agree element by
/// element denote the same map and hold the same supply.
pub proof fn lemma_accounts_map_congruent(s1: Seq<(String, Account)>, s2: Seq<(String, Account)>)
    requires
        s1.len() == s2.len(),
        forall|i: int|
            0 <= i < s1.len() ==> s1[i].0@ == s2[i].0@ && s1[i].1@ == s2[i].1@
                && s1[i].1.tokens == s2[i].1.tokens,
    ensures
        accounts_map(s1) == accounts_map(s2),
        total_supply(s1) == total_supply(s2),
    decreases s1.len(),
{
    if s1.len() > 0 {
        lemma_accounts_map_congruent(s1.drop_last(), s2.drop_last());
        assert(accounts_map(s1) =~= accounts_map(s2));
    }
}

impl WorldState {
    /// Identifiers are pairwise distinct and every account is well-formed.
    pub open spec fn wf(self) -> bool {
        &&& forall|i: int, j: int|
            0 <= i < j < self.accounts@.len() ==> self.accounts@[i].0@ != self.accounts@[j].0@
        &&& forall|i: int| 0 <= i < self.accounts@.len() ==> self.accounts@[i].1.wf()
    }

    /// The total number of tokens across all accounts.
    pub open spec fn supply(self) -> int {
        total_supply(self.accounts@)
    }

    /// An empty registry.
    pub fn new() -> (r: WorldState)
        ensures
            r.wf(),
            r@ == Map::<Seq<char>, AccountView>::empty(),
            r.supply() == 0,
    {
        WorldState { accounts: Vec::new() }
    }

    /// The index of the pair that carries `id`, if any.
    fn find_index(&self, id: &String) -> (r: Option<usize>)
        ensures
            match r {
                Option::Some(i) => i < self.accounts@.len() && self.accounts@[i as int].0@ == id@,
                Option::None => forall|i: int|
                    0 <= i < self.accounts@.len() ==> self.accounts@[i].0@ != id@,
            },
    {
        let mut i: usize = 0;
        while i < self.accounts.len()
            invariant
                i <= self.accounts@.len(),
                forall|j: int| 0 <= j < i ==> self.accounts@[j].0@ != id@,
            decreases self.accounts@.len() - i,
        {
            let pair = &self.accounts[i];
            if pair.0 == *id {
                return Option::Some(i);
            }
            i = i + 1;
        }
        Option::None
    }

    /// Whether an account is registered under `id`.
    pub fn has_account(&self, id: &String) -> (r: bool)
        ensures
            r == self@.contains_key(id@),
    {
        proof {
            lemma_accounts_map_contains(self.accounts@, id@);
        }
        match self.find_index(id) {
            Option::Some(_) => true,
            Option::None => false,
        }
    }

    /// Read-only lookup; `None` exactly when `id` is unknown.
    pub fn get_account_by_id(&self, id: &String) -> (r: Option<&Account>)
        requires
            self.wf(),
        ensures
            match r {
                Option::Some(a) => self@.contains_key(id@) && a@ == self@[id@] && a.wf(),
                Option::None => !self@.contains_key(id@),
            },
    {
        proof {
            lemma_accounts_map_contains(self.accounts@, id@);
        }
        match self.find_index(id) {
            Option::Some(i) => {
                proof {
                    lemma_accounts_map_found(self.accounts@, i as int);
                }
                Option::Some(&self.accounts[i].1)
            },
            Option::None => Option::None,
        }
    }

    /// All registered identifiers, in registration order.
    pub fn get_user_ids(&self) -> (r: Vec<String>)
        ensures
            r@.len() == self.accounts@.len(),
            forall|i: int| 0 <= i < r@.len() ==> r@[i]@ == self.accounts@[i].0@,
    {
        let mut r: Vec<String> = Vec::new();
        let mut i: usize = 0;
        while i < self.accounts.len()
            invariant
                i <= self.accounts@.len(),
                r@.len() == i,
                forall|j: int| 0 <= j < i ==> r@[j]@ == self.accounts@[j].0@,
            decreases self.accounts@.len() - i,
        {
            r.push(self.accounts[i].0.clone());
            i = i + 1;
        }
        r
    }

    /// Registers a fresh account under `id`: zero tokens, empty store.
    /// Fails, changing nothing, exactly when `id` is already taken.
    pub fn create_account(&mut self, id: String, account_type: AccountType) -> (r: Result<
        (),
        LedgerError,
    >)
        requires
            old(self).wf(),
        ensures
            final(self).wf(),
            old(self)@.contains_key(id@) ==> r == Err::<(), LedgerError>(LedgerError::AccountExists)
                && final(self)@ == old(self)@ && final(self).accounts@ == old(self).accounts@,
            !old(self)@.contains_key(id@) ==> r is Ok && final(self)@ == old(self)@.insert(
                id@,
                fresh_account(account_type),
            ) && final(self).supply() == old(self).supply(),
    {
        if self.has_account(&id) {
            return Err(LedgerError::AccountExists);
        }
        proof {
            lemma_accounts_map_contains(self.accounts@, id@);
        }
        let fresh = Account::new(account_type);
        proof {
            lemma_accounts_map_push(self.accounts@, (id, fresh));
            lemma_supply_push(self.accounts@, (id, fresh));
        }
        self.accounts.push((id, fresh));
        Ok(())
    }

    /// Stores `account` under `id`, replacing what was there if anything.
    pub(crate) fn insert_account(&mut self, id: &String, account: Account)
        requires
            old(self).wf(),
            account.wf(),
        ensures
            final(self).wf(),
            final(self)@ == old(self)@.insert(id@, account@),
            final(self).supply() == old(self).supply() + account.tokens - (
            if old(self)@.contains_key(id@) {
                old(self)@[id@].tokens as int
            } else {
                0
            }),
    {
        proof {
            lemma_accounts_map_contains(self.accounts@, id@);
        }
        match self.find_index(id) {
            Option::Some(i) => {
                proof {
                    lemma_accounts_map_found(self.accounts@, i as int);
                }
                let ghost s0 = self.accounts@;
                let slot = &mut self.accounts[i];
                slot.1 = account;
                proof {
                    lemma_accounts_map_update(s0, i as int, self.accounts@[i as int]);
                    lemma_supply_update(s0, i as int, self.accounts@[i as int]);
                }
            },
            Option::None => {
                let pair = (id.clone(), account);
                proof {
                    lemma_accounts_map_push(self.accounts@, pair);
                    lemma_supply_push(self.accounts@, pair);
                }
                self.accounts.push(pair);
            },
        }
    }

    /// A copy whose model, supply and well-formedness are the same as this
    /// state's; mutating one never shows in the other.
    pub fn deep_clone(&self) -> (r: WorldState)
        ensures
            r@ == self@,
            r.supply() == self.supply(),
            r.wf() <==> self.wf(),
    {
        let mut accounts: Vec<(String, Account)> = Vec::new();
        let mut i: usize = 0;
        while i < self.accounts.len()
            invariant
                i <= self.accounts@.len(),
                accounts@.len() == i,
                forall|j: int|
                    0 <= j < i ==> accounts@[j].0@ == self.accounts@[j].0@ && accounts@[j].1@
                        == self.accounts@[j].1@ && accounts@[j].1.tokens
                        == self.accounts@[j].1.tokens && (accounts@[j].1.wf()
                        <==> self.accounts@[j].1.wf()),
            decreases self.accounts@.len() - i,
        {
            let pair = &self.accounts[i];
            accounts.push((pair.0.clone(), pair.1.duplicate()));
            i = i + 1;
        }
        let r = WorldState { accounts };
        proof {
            lemma_accounts_map_congruent(r.accounts@, self.accounts@);
            if self.wf() {
                assert forall|a: int, b: int|
                    0 <= a < b < r.accounts@.len() implies r.accounts@[a].0@
                    != r.accounts@[b].0@ by {
                    assert(self.accounts@[a].0@ != self.accounts@[b].0@);
                }
                assert forall|a: int| 0 <= a < r.accounts@.len() implies r.accounts@[a].1.wf() by {
                    assert(self.accounts@[a].1.wf());
                }
            }
            if r.wf() {
                assert forall|a: int, b: int|
                    0 <= a < b < self.accounts@.len() implies self.accounts@[a].0@
                    != self.accounts@[b].0@ by {
                    assert(r.accounts@[a].0@ != r.accounts@[b].0@);
                }
                assert forall|a: int|
                    0 <= a < self.accounts@.len() implies self.accounts@[a].1.wf() by {
                    assert(r.accounts@[a].1.wf());
                }
            }
        }
        r
    }
}

} // verus!
