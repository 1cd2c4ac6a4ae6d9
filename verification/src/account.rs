//! Accounts: the per-identity record held in the world state.

use vstd::prelude::*;

verus! {

/// The role of an account. Validator statistics are opaque counters kept for
/// an external consensus collaborator; nothing in this crate computes them.
#[derive(Debug, Clone, Copy, PartialEq, Eq, Structural)]
pub enum AccountType {
    User,
    Contract,
    Validator {
        correctly_validated_blocks: u128,
        incorrectly_validated_blocks: u128,
    },
}

/// One account: a token balance (never negative), a string key-value store
/// with unique keys, and the nonce of the last transaction this account sent.
#[derive(Debug, Clone)]
pub struct Account {
    pub store: Vec<(String, String)>,
    pub account_type: AccountType,
    pub tokens: u128,
    pub last_nonce: u128,
}

/// Mathematical model of an account: the store abstracted to a map.
pub struct AccountView {
    pub store: Map<Seq<char>, Seq<char>>,
    pub account_type: AccountType,
    pub tokens: u128,
    pub last_nonce: u128,
}

/// The map that a sequence of key-value pairs denotes: later pairs win.
pub open spec fn kv_map(s: Seq<(String, String)>) -> Map<Seq<char>, Seq<char>>
    decreases s.len(),
{
    if s.len() == 0 {
        Map::empty()
    } else {
        kv_map(s.drop_last()).insert(s.last().0@, s.last().1@)
    }
}

impl View for Account {
    type V = AccountView;

    open spec fn view(&self) -> AccountView {
        AccountView {
            store: kv_map(self.store@),
            account_type: self.account_type,
            tokens: self.tokens,
            last_nonce: self.last_nonce,
        }
    }
}

/// A freshly created account of the given type.
pub open spec fn fresh_account(t: AccountType) -> AccountView {
    AccountView { store: Map::empty(), account_type: t, tokens: 0, last_nonce: 0 }
}

/// Two pair sequences whose keys and values agree element by element denote
/// the same map.
pub proof fn lemma_kv_map_congruent(s1: Seq<(String, String)>, s2: Seq<(String, String)>)
    requires
        s1.len() == s2.len(),
        forall|i: int|
            0 <= i < s1.len() ==> s1[i].0@ == s2[i].0@ && s1[i].1@ == s2[i].1@,
    ensures
        kv_map(s1) == kv_map(s2),
    decreases s1.len(),
{
    if s1.len() > 0 {
        lemma_kv_map_congruent(s1.drop_last(), s2.drop_last());
        assert(kv_map(s1) =~= kv_map(s2));
    }
}

/// The index of the store pair that carries `key`, if any.
fn store_find(store: &Vec<(String, String)>, key: &String) -> (r: Option<usize>)
    ensures
        match r {
            Option::Some(i) => i < store@.len() && store@[i as int].0@ == key@,
            Option::None => forall|i: int| 0 <= i < store@.len() ==> store@[i].0@ != key@,
        },
{
    let mut i: usize = 0;
    while i < store.len()
        invariant
            i <= store@.len(),
            forall|j: int| 0 <= j < i ==> store@[j].0@ != key@,
        decreases store@.len() - i,
    {
        let pair = &store[i];
        if pair.0 == *key {
            return Option::Some(i);
        }
        i = i + 1;
    }
    Option::None
}

/// A key is in the denoted map exactly when some pair carries it.
pub proof fn lemma_kv_map_contains(s: Seq<(String, String)>, k: Seq<char>)
    ensures
        kv_map(s).contains_key(k) <==> (exists|i: int| 0 <= i < s.len() && s[i].0@ == k),
    decreases s.len(),
{
    if s.len() > 0 {
        lemma_kv_map_contains(s.drop_last(), k);
        if s.last().0@ == k {
            assert(s[s.len() - 1].0@ == k);
        } else {
            if exists|i: int| 0 <= i < s.len() && s[i].0@ == k {
                let i = choose|i: int| 0 <= i < s.len() && s[i].0@ == k;
                assert(s.drop_last()[i].0@ == k);
            }
            if kv_map(s).contains_key(k) {
                let i = choose|i: int| 0 <= i < s.drop_last().len() && s.drop_last()[i].0@ == k;
                assert(s[i].0@ == k);
            }
        }
    }
}

/// Replacing the pair at an index, key kept, turns the denoted map into an
/// insert under that key.
pub proof fn lemma_kv_map_update(s: Seq<(String, String)>, i: int, p: (String, String))
    requires
        forall|a: int, b: int| 0 <= a < b < s.len() ==> s[a].0@ != s[b].0@,
        0 <= i < s.len(),
        p.0@ == s[i].0@,
    ensures
        kv_map(s.update(i, p)) == kv_map(s).insert(p.0@, p.1@),
    decreases s.len(),
{
    let su = s.update(i, p);
    if i == s.len() - 1 {
        assert(su.drop_last() =~= s.drop_last());
        assert(kv_map(su) =~= kv_map(s).insert(p.0@, p.1@));
    } else {
        assert(su.drop_last() =~= s.drop_last().update(i, p));
        assert(forall|a: int, b: int|
            0 <= a < b < s.drop_last().len() ==> s.drop_last()[a].0@ != s.drop_last()[b].0@);
        lemma_kv_map_update(s.drop_last(), i, p);
        assert(p.0@ != s.last().0@);
        assert(kv_map(su) =~= kv_map(s).insert(p.0@, p.1@));
    }
}

/// Appending a pair turns the denoted map into an insert under its key.
pub proof fn lemma_kv_map_push(s: Seq<(String, String)>, p: (String, String))
    ensures
        kv_map(s.push(p)) == kv_map(s).insert(p.0@, p.1@),
{
    assert(s.push(p).drop_last() =~= s);
}

impl Account {
    /// The keys of the backing store are pairwise distinct.
    pub open spec fn wf(self) -> bool {
        forall|i: int, j: int|
            0 <= i < j < self.store@.len() ==> self.store@[i].0@ != self.store@[j].0@
    }

    /// A fresh account of the given type: no tokens, empty store, no
    /// transaction sent yet.
    pub fn new(account_type: AccountType) -> (r: Account)
        ensures
            r.wf(),
            r@.store == Map::<Seq<char>, Seq<char>>::empty(),
            r@.account_type == account_type,
            r@.tokens == 0,
            r@.last_nonce == 0,
    {
        Account { tokens: 0, account_type, store: Vec::new(), last_nonce: 0 }
    }

    /// A field-by-field copy whose model is the same as this account's.
    pub fn duplicate(&self) -> (r: Account)
        ensures
            r@ == self@,
            r.store@.len() == self.store@.len(),
            forall|i: int|
                0 <= i < self.store@.len() ==> r.store@[i].0@ == self.store@[i].0@
                    && r.store@[i].1@ == self.store@[i].1@,
            r.wf() <==> self.wf(),
            r.account_type == self.account_type,
            r.tokens == self.tokens,
            r.last_nonce == self.last_nonce,
    {
        let mut store: Vec<(String, String)> = Vec::new();
        let mut i: usize = 0;
        while i < self.store.len()
            invariant
                i <= self.store@.len(),
                store@.len() == i,
                forall|j: int|
                    0 <= j < i ==> store@[j].0@ == self.store@[j].0@ && store@[j].1@
                        == self.store@[j].1@,
            decreases self.store@.len() - i,
        {
            let pair = &self.store[i];
            store.push((pair.0.clone(), pair.1.clone()));
            i = i + 1;
        }
        let r = Account {
            store,
            account_type: self.account_type,
            tokens: self.tokens,
            last_nonce: self.last_nonce,
        };
        proof {
            lemma_kv_map_congruent(r.store@, self.store@);
            if self.wf() {
                assert forall|a: int, b: int|
                    0 <= a < b < r.store@.len() implies r.store@[a].0@ != r.store@[b].0@ by {
                    assert(self.store@[a].0@ != self.store@[b].0@);
                }
            }
            if r.wf() {
                assert forall|a: int, b: int|
                    0 <= a < b < self.store@.len() implies self.store@[a].0@
                    != self.store@[b].0@ by {
                    assert(r.store@[a].0@ != r.store@[b].0@);
                }
            }
        }
        r
    }

    /// Sets `store[key] = value`; every other field keeps its value.
    pub fn set_store_value(&mut self, key: &String, value: String)
        requires
            old(self).wf(),
        ensures
            final(self).wf(),
            final(self)@.store == old(self)@.store.insert(key@, value@),
            final(self)@.account_type == old(self)@.account_type,
            final(self)@.tokens == old(self)@.tokens,
            final(self)@.last_nonce == old(self)@.last_nonce,
    {
        proof {
            lemma_kv_map_contains(self.store@, key@);
        }
        match store_find(&self.store, key) {
            Option::Some(i) => {
                let ghost s0 = self.store@;
                let slot = &mut self.store[i];
                slot.1 = value;
                proof {
                    lemma_kv_map_update(s0, i as int, self.store@[i as int]);
                }
            },
            Option::None => {
                let pair = (key.clone(), value);
                proof {
                    lemma_kv_map_push(self.store@, pair);
                }
                self.store.push(pair);
            },
        }
    }
}

} // verus!
