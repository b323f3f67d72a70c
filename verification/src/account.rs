//! Accounts, OAuth tokens, and the injectable map-backed account store.
//!
//! The store is the only durable shared state of the pool: the token
//! refresher persists rotations through `save`, and the observable write
//! count lets callers hold it to "exactly one write per refresh, none on
//! a no-op".

use vstd::prelude::*;
use crate::strutil::str_eq;

verus! {

/// An OAuth token: immutable value, replaced wholesale on refresh.
#[derive(Clone, Debug, PartialEq)]
pub struct Token {
    pub access_token: String,
    pub refresh_token: String,
    /// Absolute expiry, seconds since the Unix epoch.
    pub expiry: i64,
}

/// One independently authenticated identity of the pool.
#[derive(Clone, Debug, PartialEq)]
pub struct Account {
    pub id: String,
    pub email: String,
    pub token: Token,
    /// Upstream project identifier, once resolved.
    pub project_id: Option<String>,
    pub disabled: bool,
    pub proxy_disabled: bool,
}

/// A field-for-field copy of a token.
pub fn clone_token(t: &Token) -> (r: Token)
    ensures
        r == *t,
{
    Token {
        access_token: t.access_token.clone(),
        refresh_token: t.refresh_token.clone(),
        expiry: t.expiry,
    }
}

/// A field-for-field copy of an account.
pub fn clone_account(a: &Account) -> (r: Account)
    ensures
        r == *a,
{
    Account {
        id: a.id.clone(),
        email: a.email.clone(),
        token: clone_token(&a.token),
        project_id: match &a.project_id {
            Some(p) => Some(p.clone()),
            None => None,
        },
        disabled: a.disabled,
        proxy_disabled: a.proxy_disabled,
    }
}

/// Failure of a store operation.
#[derive(Clone, Copy, Debug, PartialEq, Eq, Structural)]
pub enum StoreError {
    /// No account with the given id is in the store.
    AccountNotFound,
}

/// Keyed storage of accounts, ids unique, with an observable count of
/// the writes performed on it.
pub struct AccountStore {
    pub accounts: Vec<Account>,
    pub write_count: u64,
}

/// Ids of `accs` are pairwise distinct.
pub open spec fn ids_unique(accs: Seq<Account>) -> bool {
    forall|i: int, j: int|
        0 <= i < j < accs.len() ==> (#[trigger] accs[i]).id@ != (#[trigger] accs[j]).id@
}

pub open spec fn seq_has_id(accs: Seq<Account>, id: Seq<char>) -> bool {
    exists|i: int| 0 <= i < accs.len() && (#[trigger] accs[i]).id@ == id
}

pub open spec fn seq_index_of(accs: Seq<Account>, id: Seq<char>) -> int {
    choose|i: int| 0 <= i < accs.len() && (#[trigger] accs[i]).id@ == id
}

/// The account of `accs` carrying `id`, if any.
pub open spec fn seq_get(accs: Seq<Account>, id: Seq<char>) -> Option<Account> {
    if seq_has_id(accs, id) {
        Some(accs[seq_index_of(accs, id)])
    } else {
        None
    }
}

impl AccountStore {
    /// Ids are pairwise distinct.
    pub open spec fn wf(self) -> bool {
        ids_unique(self.accounts@)
    }

    pub open spec fn has_id(self, id: Seq<char>) -> bool {
        seq_has_id(self.accounts@, id)
    }

    pub open spec fn index_of(self, id: Seq<char>) -> int {
        seq_index_of(self.accounts@, id)
    }

    /// The account stored under `id`, if any.
    pub open spec fn spec_get(self, id: Seq<char>) -> Option<Account> {
        seq_get(self.accounts@, id)
    }

    /// In a well-formed store, any index whose account carries `id` is
    /// the index `spec_get` reads.
    pub proof fn lemma_unique_index(self, id: Seq<char>, i: int)
        requires
            self.wf(),
            0 <= i < self.accounts@.len(),
            self.accounts@[i].id@ == id,
        ensures
            self.has_id(id),
            self.index_of(id) == i,
            self.spec_get(id) == Some(self.accounts@[i]),
    {
        assert(self.has_id(id));
        let k = self.index_of(id);
        assert(0 <= k < self.accounts@.len() && self.accounts@[k].id@ == id);
    }

    /// An empty store, no writes yet.
    pub fn new() -> (r: AccountStore)
        ensures
            r.wf(),
            r.accounts@.len() == 0,
            r.write_count == 0,
    {
        AccountStore { accounts: Vec::new(), write_count: 0 }
    }

    /// The position of the account with this id, if any.
    pub fn find_index(&self, id: &str) -> (r: Option<usize>)
        ensures
            match r {
                Some(i) => i < self.accounts@.len() && self.accounts@[i as int].id@ == id@,
                None => !self.has_id(id@),
            },
    {
        let n = self.accounts.len();
        let mut i: usize = 0;
        while i < n
            invariant
                i <= n,
                n == self.accounts@.len(),
                forall|j: int| 0 <= j < i ==> (#[trigger] self.accounts@[j]).id@ != id@,
            decreases n - i,
        {
            if str_eq(self.accounts[i].id.as_str(), id) {
                return Some(i);
            }
            i += 1;
        }
        None
    }

    /// The stored account with this id, if any.
    pub fn get(&self, id: &str) -> (r: Option<&Account>)
        requires
            self.wf(),
        ensures
            match r {
                Some(a) => self.spec_get(id@) == Some(*a),
                None => self.spec_get(id@) is None,
            },
    {
        match self.find_index(id) {
            Some(i) => {
                proof {
                    self.lemma_unique_index(id@, i as int);
                }
                Some(&self.accounts[i])
            },
            None => None,
        }
    }

    /// All stored accounts.
    pub fn list(&self) -> (r: &Vec<Account>)
        ensures
            r@ == self.accounts@,
    {
        &self.accounts
    }

    /// Insert or replace the account under its id, counting one write.
    pub fn save(&mut self, account: Account)
        requires
            old(self).wf(),
            old(self).write_count < u64::MAX,
        ensures
            final(self).wf(),
            final(self).write_count == old(self).write_count + 1,
            final(self).spec_get(account.id@) == Some(account),
            forall|id: Seq<char>|
                id != account.id@ ==> #[trigger] final(self).spec_get(id) == old(self).spec_get(
                    id,
                ),
            final(self).accounts@.len() == old(self).accounts@.len() + (
            if old(self).has_id(account.id@) {
                0int
            } else {
                1int
            }),
    {
        let ghost prev = *self;
        let ghost aid = account.id@;
        self.write_count = self.write_count + 1;
        match self.find_index(account.id.as_str()) {
            Some(i) => {
                proof {
                    prev.lemma_unique_index(aid, i as int);
                }
                self.accounts.set(i, account);
                proof {
                    assert(self.wf()) by {
                        assert(forall|k: int|
                            0 <= k < self.accounts@.len() ==> (#[trigger] self.accounts@[k]).id@
                                == prev.accounts@[k].id@);
                    }
                    self.lemma_unique_index(aid, i as int);
                    assert forall|id: Seq<char>| id != aid implies #[trigger] self.spec_get(id)
                        == prev.spec_get(id) by {
                        if prev.has_id(id) {
                            let k = prev.index_of(id);
                            assert(k != i);
                            self.lemma_unique_index(id, k);
                            prev.lemma_unique_index(id, k);
                        } else {
                            assert(!self.has_id(id)) by {
                                if self.has_id(id) {
                                    let k = self.index_of(id);
                                    assert(prev.accounts@[k].id@ == id);
                                }
                            }
                        }
                    }
                }
            },
            None => {
                self.accounts.push(account);
                proof {
                    let n = prev.accounts@.len() as int;
                    assert(self.wf()) by {
                        assert(forall|k: int|
                            0 <= k < n ==> (#[trigger] self.accounts@[k]) == prev.accounts@[k]);
                        assert(self.accounts@[n].id@ == aid);
                        assert(forall|k: int| 0 <= k < n ==> (#[trigger] prev.accounts@[k]).id@ != aid);
                    }
                    self.lemma_unique_index(aid, n);
                    assert forall|id: Seq<char>| id != aid implies #[trigger] self.spec_get(id)
                        == prev.spec_get(id) by {
                        if prev.has_id(id) {
                            let k = prev.index_of(id);
                            prev.lemma_unique_index(id, k);
                            self.lemma_unique_index(id, k);
                        } else {
                            assert(!self.has_id(id)) by {
                                if self.has_id(id) {
                                    let k = self.index_of(id);
                                    assert(0 <= k < n + 1);
                                    assert(self.accounts@[k].id@ == id);
                                }
                            }
                        }
                    }
                }
            },
        }
    }
}

} // verus!
