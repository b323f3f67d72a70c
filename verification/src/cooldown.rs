//! Cooldown ledger: when did a warmup last fire for a given
//! (email, model, target-percentage) key, and is that key still cooling
//! down. The ledger is an injectable map-backed store; recording a key
//! replaces its previous entry.

use vstd::prelude::*;
use crate::strutil::str_eq;

verus! {

/// Default minimum seconds between two warmups of one key: four hours.
pub const DEFAULT_COOLDOWN_WINDOW_SECS: i64 = 14400;

/// A warmup deduplication key.
#[derive(Clone, Debug, PartialEq)]
pub struct CooldownKey {
    pub email: String,
    pub model: String,
    /// Target percentage bucket the warmup aimed at, e.g. "100".
    pub target: String,
}

/// The mathematical value of a key.
pub open spec fn key_view(k: CooldownKey) -> (Seq<char>, Seq<char>, Seq<char>) {
    (k.email@, k.model@, k.target@)
}

pub open spec fn entry_keys_unique(entries: Seq<(CooldownKey, i64)>) -> bool {
    forall|i: int, j: int|
        0 <= i < j < entries.len() ==> key_view((#[trigger] entries[i]).0) != key_view(
            (#[trigger] entries[j]).0,
        )
}

pub open spec fn ledger_has(
    entries: Seq<(CooldownKey, i64)>,
    k: (Seq<char>, Seq<char>, Seq<char>),
) -> bool {
    exists|i: int| 0 <= i < entries.len() && key_view((#[trigger] entries[i]).0) == k
}

pub open spec fn ledger_index(
    entries: Seq<(CooldownKey, i64)>,
    k: (Seq<char>, Seq<char>, Seq<char>),
) -> int {
    choose|i: int| 0 <= i < entries.len() && key_view((#[trigger] entries[i]).0) == k
}

/// When the key last fired, if ever.
pub open spec fn last_fired(
    entries: Seq<(CooldownKey, i64)>,
    k: (Seq<char>, Seq<char>, Seq<char>),
) -> Option<i64> {
    if ledger_has(entries, k) {
        Some(entries[ledger_index(entries, k)].1)
    } else {
        None
    }
}

/// A key recorded at `t` is suppressed at `now` while `now - t` is
/// within the window; a key never recorded is not suppressed.
pub open spec fn cooling_spec(
    entries: Seq<(CooldownKey, i64)>,
    k: (Seq<char>, Seq<char>, Seq<char>),
    window_seconds: i64,
    now: i64,
) -> bool {
    match last_fired(entries, k) {
        Some(t) => now - t < window_seconds,
        None => false,
    }
}

/// Last-fired times per key, keys unique.
pub struct CooldownLedger {
    pub entries: Vec<(CooldownKey, i64)>,
}

impl CooldownLedger {
    pub open spec fn wf(self) -> bool {
        entry_keys_unique(self.entries@)
    }

    pub open spec fn spec_last_fired(self, k: (Seq<char>, Seq<char>, Seq<char>)) -> Option<i64> {
        last_fired(self.entries@, k)
    }

    /// In a well-formed ledger, any index carrying `k` is the one
    /// `last_fired` reads.
    pub proof fn lemma_unique_index(self, k: (Seq<char>, Seq<char>, Seq<char>), i: int)
        requires
            self.wf(),
            0 <= i < self.entries@.len(),
            key_view(self.entries@[i].0) == k,
        ensures
            ledger_has(self.entries@, k),
            ledger_index(self.entries@, k) == i,
            self.spec_last_fired(k) == Some(self.entries@[i].1),
    {
        assert(ledger_has(self.entries@, k));
        let j = ledger_index(self.entries@, k);
        assert(0 <= j < self.entries@.len() && key_view(self.entries@[j].0) == k);
    }

    /// An empty ledger.
    pub fn new() -> (r: CooldownLedger)
        ensures
            r.wf(),
            r.entries@.len() == 0,
    {
        CooldownLedger { entries: Vec::new() }
    }

    /// The position of the entry for this key, if any.
    fn find_index(&self, key: &CooldownKey) -> (r: Option<usize>)
        ensures
            match r {
                Some(i) => i < self.entries@.len() && key_view(self.entries@[i as int].0)
                    == key_view(*key),
                None => !ledger_has(self.entries@, key_view(*key)),
            },
    {
        let n = self.entries.len();
        let mut i: usize = 0;
        while i < n
            invariant
                i <= n,
                n == self.entries@.len(),
                forall|j: int|
                    0 <= j < i ==> key_view((#[trigger] self.entries@[j]).0) != key_view(*key),
            decreases n - i,
        {
            let e = &self.entries[i];
            if str_eq(e.0.email.as_str(), key.email.as_str()) && str_eq(
                e.0.model.as_str(),
                key.model.as_str(),
            ) && str_eq(e.0.target.as_str(), key.target.as_str()) {
                return Some(i);
            }
            i += 1;
        }
        None
    }

    /// Whether `key` is still cooling down at `now` for the given window.
    pub fn is_cooling_down(&self, key: &CooldownKey, window_seconds: i64, now: i64) -> (r: bool)
        requires
            self.wf(),
        ensures
            r == cooling_spec(self.entries@, key_view(*key), window_seconds, now),
    {
        match self.find_index(key) {
            Some(i) => {
                proof {
                    self.lemma_unique_index(key_view(*key), i as int);
                }
                let t = self.entries[i].1;
                (now as i128) - (t as i128) < (window_seconds as i128)
            },
            None => false,
        }
    }

    /// Record that `key` fired at `timestamp`, replacing any previous
    /// entry for it; every other key's entry keeps.
    pub fn record(&mut self, key: CooldownKey, timestamp: i64)
        requires
            old(self).wf(),
        ensures
            final(self).wf(),
            final(self).spec_last_fired(key_view(key)) == Some(timestamp),
            forall|k: (Seq<char>, Seq<char>, Seq<char>)|
                k != key_view(key) ==> #[trigger] final(self).spec_last_fired(k) == old(
                    self,
                ).spec_last_fired(k),
            final(self).entries@.len() == old(self).entries@.len() + (
            if ledger_has(old(self).entries@, key_view(key)) {
                0int
            } else {
                1int
            }),
    {
        let ghost prev = *self;
        let ghost kv = key_view(key);
        match self.find_index(&key) {
            Some(i) => {
                proof {
                    prev.lemma_unique_index(kv, i as int);
                }
                self.entries.set(i, (key, timestamp));
                proof {
                    assert(self.wf()) by {
                        assert(forall|m: int|
                            0 <= m < self.entries@.len() ==> key_view(
                                (#[trigger] self.entries@[m]).0,
                            ) == key_view(prev.entries@[m].0));
                    }
                    self.lemma_unique_index(kv, i as int);
                    assert forall|k: (Seq<char>, Seq<char>, Seq<char>)| k != kv implies #[trigger] self.spec_last_fired(
                        k,
                    ) == prev.spec_last_fired(k) by {
                        if ledger_has(prev.entries@, k) {
                            let m = ledger_index(prev.entries@, k);
                            assert(m != i);
                            self.lemma_unique_index(k, m);
                            prev.lemma_unique_index(k, m);
                        } else {
                            assert(!ledger_has(self.entries@, k)) by {
                                if ledger_has(self.entries@, k) {
                                    let m = ledger_index(self.entries@, k);
                                    assert(key_view(prev.entries@[m].0) == k);
                                }
                            }
                        }
                    }
                }
            },
            None => {
                self.entries.push((key, timestamp));
                proof {
                    let n = prev.entries@.len() as int;
                    assert(self.wf()) by {
                        assert(forall|m: int|
                            0 <= m < n ==> (#[trigger] self.entries@[m]) == prev.entries@[m]);
                        assert(key_view(self.entries@[n].0) == kv);
                        assert(forall|m: int|
                            0 <= m < n ==> key_view((#[trigger] prev.entries@[m]).0) != kv);
                    }
                    self.lemma_unique_index(kv, n);
                    assert forall|k: (Seq<char>, Seq<char>, Seq<char>)| k != kv implies #[trigger] self.spec_last_fired(
                        k,
                    ) == prev.spec_last_fired(k) by {
                        if ledger_has(prev.entries@, k) {
                            let m = ledger_index(prev.entries@, k);
                            prev.lemma_unique_index(k, m);
                            self.lemma_unique_index(k, m);
                        } else {
                            assert(!ledger_has(self.entries@, k)) by {
                                if ledger_has(self.entries@, k) {
                                    let m = ledger_index(self.entries@, k);
                                    assert(0 <= m < n + 1);
                                    assert(key_view(self.entries@[m].0) == k);
                                }
                            }
                        }
                    }
                }
            },
        }
    }
}

/// The ledger key a warmup at the ready percentage uses.
pub fn warmup_key(email: &str, model: &str) -> (r: CooldownKey)
    ensures
        r.email@ == email@,
        r.model@ == model@,
        r.target@ == "100"@,
{
    CooldownKey { email: email.to_owned(), model: model.to_owned(), target: "100".to_owned() }
}

} // verus!
