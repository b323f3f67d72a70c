//! Per-account quota snapshots, the percentage-to-state classification
//! used by the warmup orchestrator and the dispatcher, and the snapshot
//! cache with its stale fallback.

use vstd::prelude::*;
use crate::strutil::str_eq;

verus! {

/// A remaining percentage at or above this value makes a model ready to warm.
pub const READY_PERCENTAGE: i32 = 100;

/// Default lower bound of the near-ready band.
pub const DEFAULT_NEAR_READY_THRESHOLD: i32 = 95;

/// How actionable a model's remaining quota is for the warmup orchestrator.
#[derive(Clone, Copy, Debug, PartialEq, Eq, Structural)]
pub enum QuotaClass {
    /// Full quota window: worth a warmup call.
    Ready,
    /// Below ready but at or above the watch threshold: rescan soon.
    NearReady,
    /// Too little quota to act on.
    NotActionable,
}

/// The classification of a remaining percentage at a given near-ready threshold.
pub open spec fn classify_spec(percentage: int, threshold: int) -> QuotaClass {
    if percentage >= READY_PERCENTAGE {
        QuotaClass::Ready
    } else if percentage >= threshold {
        QuotaClass::NearReady
    } else {
        QuotaClass::NotActionable
    }
}

/// Order on classifications: more actionable is higher.
pub open spec fn class_rank(c: QuotaClass) -> int {
    match c {
        QuotaClass::Ready => 2,
        QuotaClass::NearReady => 1,
        QuotaClass::NotActionable => 0,
    }
}

/// Classify a model's remaining percentage against a near-ready threshold.
pub fn classify(percentage: i32, threshold: i32) -> (r: QuotaClass)
    ensures
        r == classify_spec(percentage as int, threshold as int),
{
    if percentage >= READY_PERCENTAGE {
        QuotaClass::Ready
    } else if percentage >= threshold {
        QuotaClass::NearReady
    } else {
        QuotaClass::NotActionable
    }
}

/// Classification is monotonic: at one threshold, a higher remaining
/// percentage never yields a less actionable class.
pub proof fn lemma_classify_monotonic(p1: int, p2: int, threshold: int)
    requires
        p1 >= p2,
    ensures
        class_rank(classify_spec(p1, threshold)) >= class_rank(classify_spec(p2, threshold)),
{
}

/// One model's remaining quota as the upstream reported it.
#[derive(Clone, Debug, PartialEq)]
pub struct ModelQuota {
    pub name: String,
    /// Remaining percentage, 0 to 100.
    pub percentage: i32,
    /// When the quota window resets, seconds since the Unix epoch.
    pub reset_time: Option<i64>,
}

/// A field-for-field copy of a model's quota.
pub fn clone_model_quota(m: &ModelQuota) -> (r: ModelQuota)
    ensures
        r == *m,
{
    ModelQuota {
        name: m.name.clone(),
        percentage: m.percentage,
        reset_time: m.reset_time,
    }
}

pub open spec fn model_names_unique(models: Seq<ModelQuota>) -> bool {
    forall|i: int, j: int|
        0 <= i < j < models.len() ==> (#[trigger] models[i]).name@ != (#[trigger] models[j]).name@
}

pub open spec fn models_has(models: Seq<ModelQuota>, name: Seq<char>) -> bool {
    exists|i: int| 0 <= i < models.len() && (#[trigger] models[i]).name@ == name
}

pub open spec fn models_index(models: Seq<ModelQuota>, name: Seq<char>) -> int {
    choose|i: int| 0 <= i < models.len() && (#[trigger] models[i]).name@ == name
}

/// The entry for `name`, if any; an absent model is unknown, not zero.
pub open spec fn models_get(models: Seq<ModelQuota>, name: Seq<char>) -> Option<ModelQuota> {
    if models_has(models, name) {
        Some(models[models_index(models, name)])
    } else {
        None
    }
}

/// One account's models with their remaining quota, replaced wholesale
/// on each successful fetch.
#[derive(Debug)]
pub struct QuotaSnapshot {
    pub models: Vec<ModelQuota>,
}

impl QuotaSnapshot {
    /// Names are unique and every percentage lies in 0 to 100.
    pub open spec fn wf(self) -> bool {
        &&& model_names_unique(self.models@)
        &&& forall|i: int|
            0 <= i < self.models@.len() ==> 0 <= (#[trigger] self.models@[i]).percentage <= 100
    }

    pub open spec fn spec_model(self, name: Seq<char>) -> Option<ModelQuota> {
        models_get(self.models@, name)
    }

    /// An empty snapshot: every model unknown.
    pub fn new() -> (r: QuotaSnapshot)
        ensures
            r.wf(),
            r.models@.len() == 0,
    {
        QuotaSnapshot { models: Vec::new() }
    }

    /// In a well-formed snapshot, any index carrying `name` is the one
    /// `spec_model` reads.
    pub proof fn lemma_unique_index(self, name: Seq<char>, i: int)
        requires
            self.wf(),
            0 <= i < self.models@.len(),
            self.models@[i].name@ == name,
        ensures
            models_has(self.models@, name),
            models_index(self.models@, name) == i,
            self.spec_model(name) == Some(self.models@[i]),
    {
        assert(models_has(self.models@, name));
        let j = models_index(self.models@, name);
        assert(0 <= j < self.models@.len() && self.models@[j].name@ == name);
    }

    /// Add a model not yet present.
    pub fn push_model(&mut self, name: String, percentage: i32, reset_time: Option<i64>)
        requires
            old(self).wf(),
            !models_has(old(self).models@, name@),
            0 <= percentage <= 100,
        ensures
            final(self).wf(),
            final(self).models@ == old(self).models@.push(
                ModelQuota { name, percentage, reset_time },
            ),
    {
        let ghost prev = self.models@;
        self.models.push(ModelQuota { name, percentage, reset_time });
        proof {
            assert(forall|i: int| 0 <= i < prev.len() ==> (#[trigger] self.models@[i]) == prev[i]);
        }
    }

    /// The entry for `name`, if the snapshot knows the model.
    pub fn find_model(&self, name: &str) -> (r: Option<&ModelQuota>)
        requires
            self.wf(),
        ensures
            match r {
                Some(m) => self.spec_model(name@) == Some(*m),
                None => self.spec_model(name@) is None,
            },
    {
        let n = self.models.len();
        let mut i: usize = 0;
        while i < n
            invariant
                i <= n,
                n == self.models@.len(),
                self.wf(),
                forall|j: int| 0 <= j < i ==> (#[trigger] self.models@[j]).name@ != name@,
            decreases n - i,
        {
            if str_eq(self.models[i].name.as_str(), name) {
                proof {
                    self.lemma_unique_index(name@, i as int);
                }
                return Some(&self.models[i]);
            }
            i += 1;
        }
        None
    }
}

/// A snapshot with the same models.
pub fn clone_snapshot(s: &QuotaSnapshot) -> (r: QuotaSnapshot)
    ensures
        r.models@ == s.models@,
{
    let n = s.models.len();
    let mut models: Vec<ModelQuota> = Vec::new();
    let mut i: usize = 0;
    while i < n
        invariant
            i <= n,
            n == s.models@.len(),
            models@ == s.models@.take(i as int),
        decreases n - i,
    {
        models.push(clone_model_quota(&s.models[i]));
        proof {
            assert(models@ =~= s.models@.take(i as int + 1));
        }
        i += 1;
    }
    proof {
        assert(s.models@.take(n as int) =~= s.models@);
    }
    QuotaSnapshot { models }
}

/// A transient failure to fetch a fresh snapshot.
#[derive(Clone, Copy, Debug, PartialEq, Eq, Structural)]
pub enum FetchError {
    /// The upstream could not be reached.
    Network,
    /// The upstream answered with a non-success status.
    UpstreamStatus(u16),
    /// The response could not be read as a model listing.
    InvalidResponse,
}

pub open spec fn cache_has(entries: Seq<(String, QuotaSnapshot)>, email: Seq<char>) -> bool {
    exists|i: int| 0 <= i < entries.len() && (#[trigger] entries[i]).0@ == email
}

pub open spec fn cache_index(entries: Seq<(String, QuotaSnapshot)>, email: Seq<char>) -> int {
    choose|i: int| 0 <= i < entries.len() && (#[trigger] entries[i]).0@ == email
}

/// The cached models for `email`, if a snapshot is held.
pub open spec fn cache_models(
    entries: Seq<(String, QuotaSnapshot)>,
    email: Seq<char>,
) -> Option<Seq<ModelQuota>> {
    if cache_has(entries, email) {
        Some(entries[cache_index(entries, email)].1.models@)
    } else {
        None
    }
}

pub open spec fn cache_keys_unique(entries: Seq<(String, QuotaSnapshot)>) -> bool {
    forall|i: int, j: int|
        0 <= i < j < entries.len() ==> (#[trigger] entries[i]).0@ != (#[trigger] entries[j]).0@
}

/// Per-account snapshots, serving stale data when a fetch fails.
pub struct QuotaCache {
    pub entries: Vec<(String, QuotaSnapshot)>,
}

impl QuotaCache {
    pub open spec fn wf(self) -> bool {
        &&& cache_keys_unique(self.entries@)
        &&& forall|i: int| 0 <= i < self.entries@.len() ==> (#[trigger] self.entries@[i]).1.wf()
    }

    pub open spec fn spec_models(self, email: Seq<char>) -> Option<Seq<ModelQuota>> {
        cache_models(self.entries@, email)
    }

    /// In a well-formed cache, any index carrying `email` is the one
    /// `spec_models` reads.
    pub proof fn lemma_unique_index(self, email: Seq<char>, i: int)
        requires
            self.wf(),
            0 <= i < self.entries@.len(),
            self.entries@[i].0@ == email,
        ensures
            cache_has(self.entries@, email),
            cache_index(self.entries@, email) == i,
            self.spec_models(email) == Some(self.entries@[i].1.models@),
    {
        assert(cache_has(self.entries@, email));
        let j = cache_index(self.entries@, email);
        assert(0 <= j < self.entries@.len() && self.entries@[j].0@ == email);
    }

    /// An empty cache.
    pub fn new() -> (r: QuotaCache)
        ensures
            r.wf(),
            r.entries@.len() == 0,
    {
        QuotaCache { entries: Vec::new() }
    }

    fn find_index(&self, email: &str) -> (r: Option<usize>)
        ensures
            match r {
                Some(i) => i < self.entries@.len() && self.entries@[i as int].0@ == email@,
                None => !cache_has(self.entries@, email@),
            },
    {
        let n = self.entries.len();
        let mut i: usize = 0;
        while i < n
            invariant
                i <= n,
                n == self.entries@.len(),
                forall|j: int| 0 <= j < i ==> (#[trigger] self.entries@[j]).0@ != email@,
            decreases n - i,
        {
            if str_eq(self.entries[i].0.as_str(), email) {
                return Some(i);
            }
            i += 1;
        }
        None
    }

    /// The cached snapshot for `email`, if any.
    pub fn lookup(&self, email: &str) -> (r: Option<&QuotaSnapshot>)
        requires
            self.wf(),
        ensures
            match r {
                Some(s) => self.spec_models(email@) == Some(s.models@) && s.wf(),
                None => self.spec_models(email@) is None,
            },
    {
        match self.find_index(email) {
            Some(i) => {
                proof {
                    self.lemma_unique_index(email@, i as int);
                }
                Some(&self.entries[i].1)
            },
            None => None,
        }
    }

    /// Replace the snapshot held for `email` wholesale.
    fn store(&mut self, email: &str, snapshot: QuotaSnapshot)
        requires
            old(self).wf(),
            snapshot.wf(),
        ensures
            final(self).wf(),
            final(self).spec_models(email@) == Some(snapshot.models@),
            forall|k: Seq<char>|
                k != email@ ==> #[trigger] final(self).spec_models(k) == old(self).spec_models(k),
    {
        let ghost prev = *self;
        let ghost kv = email@;
        match self.find_index(email) {
            Some(i) => {
                proof {
                    prev.lemma_unique_index(kv, i as int);
                }
                self.entries.set(i, (email.to_owned(), snapshot));
                proof {
                    assert(self.wf()) by {
                        assert(forall|m: int|
                            0 <= m < self.entries@.len() ==> (#[trigger] self.entries@[m]).0@
                                == prev.entries@[m].0@);
                        assert(forall|m: int|
                            0 <= m < self.entries@.len() && m != i ==> (
                            #[trigger] self.entries@[m]).1 == prev.entries@[m].1);
                    }
                    self.lemma_unique_index(kv, i as int);
                    assert forall|k: Seq<char>| k != kv implies #[trigger] self.spec_models(k)
                        == prev.spec_models(k) by {
                        if cache_has(prev.entries@, k) {
                            let m = cache_index(prev.entries@, k);
                            assert(m != i);
                            self.lemma_unique_index(k, m);
                            prev.lemma_unique_index(k, m);
                        } else {
                            assert(!cache_has(self.entries@, k)) by {
                                if cache_has(self.entries@, k) {
                                    let m = cache_index(self.entries@, k);
                                    assert(prev.entries@[m].0@ == k);
                                }
                            }
                        }
                    }
                }
            },
            None => {
                self.entries.push((email.to_owned(), snapshot));
                proof {
                    let n = prev.entries@.len() as int;
                    assert(self.wf()) by {
                        assert(forall|m: int|
                            0 <= m < n ==> (#[trigger] self.entries@[m]) == prev.entries@[m]);
                        assert(self.entries@[n].0@ == kv);
                        assert(forall|m: int|
                            0 <= m < n ==> (#[trigger] prev.entries@[m]).0@ != kv);
                    }
                    self.lemma_unique_index(kv, n);
                    assert forall|k: Seq<char>| k != kv implies #[trigger] self.spec_models(k)
                        == prev.spec_models(k) by {
                        if cache_has(prev.entries@, k) {
                            let m = cache_index(prev.entries@, k);
                            prev.lemma_unique_index(k, m);
                            self.lemma_unique_index(k, m);
                        } else {
                            assert(!cache_has(self.entries@, k)) by {
                                if cache_has(self.entries@, k) {
                                    let m = cache_index(self.entries@, k);
                                    assert(0 <= m < n + 1);
                                    assert(self.entries@[m].0@ == k);
                                }
                            }
                        }
                    }
                }
            },
        }
    }

    /// Whether a fetch for `email` can be served from the cache.
    pub fn can_serve_cached(&self, email: &str, use_cache: bool) -> (r: bool)
        requires
            self.wf(),
        ensures
            r == (use_cache && self.spec_models(email@) is Some),
    {
        if !use_cache {
            return false;
        }
        match self.lookup(email) {
            Some(_) => true,
            None => false,
        }
    }

    /// Take in the outcome of an upstream fetch for `email`: a success
    /// replaces the stored snapshot atomically and is returned; a failure
    /// is masked by the previous snapshot where one exists and propagated
    /// otherwise. The cache is untouched on the failure paths.
    pub fn apply_fetch_outcome(
        &mut self,
        email: &str,
        outcome: Result<QuotaSnapshot, FetchError>,
    ) -> (r: Result<QuotaSnapshot, FetchError>)
        requires
            old(self).wf(),
            outcome matches Ok(s) ==> s.wf(),
        ensures
            final(self).wf(),
            match outcome {
                Ok(snap) => {
                    &&& final(self).spec_models(email@) == Some(snap.models@)
                    &&& (forall|k: Seq<char>|
                        k != email@ ==> #[trigger] final(self).spec_models(k) == old(
                            self,
                        ).spec_models(k))
                    &&& r matches Ok(out) && out.models@ == snap.models@
                },
                Err(e) => {
                    &&& *final(self) == *old(self)
                    &&& match old(self).spec_models(email@) {
                        Some(stale) => r matches Ok(out) && out.models@ == stale,
                        None => r == Err::<QuotaSnapshot, FetchError>(e),
                    }
                },
            },
    {
        match outcome {
            Ok(snap) => {
                let out = clone_snapshot(&snap);
                self.store(email, snap);
                Ok(out)
            },
            Err(e) => {
                match self.lookup(email) {
                    Some(stale) => Ok(clone_snapshot(stale)),
                    None => Err(e),
                }
            },
        }
    }
}

} // verus!
