//! Request dispatcher: pick the account with the most remaining quota
//! for the requested model, and on each upstream failure decide the next
//! step — one forced refresh-and-retry on an authentication failure,
//! exclusion and the next candidate on an entitlement or quota failure —
//! until a call succeeds or every candidate is exhausted.
//!
//! The surrounding process issues the calls; a strictly decreasing
//! measure bounds the attempts by the number of eligible accounts.

use vstd::prelude::*;
use crate::account::Account;
use crate::quota::{models_get, QuotaCache};
use crate::warmup::eligible_spec;

verus! {

/// An eligible account with its remaining quota for the requested model.
#[derive(Clone, Debug, PartialEq)]
pub struct Candidate {
    pub account_id: String,
    pub email: String,
    /// Remaining percentage for the requested model; unknown quota is
    /// screened out before candidates are built.
    pub percentage: i32,
}

/// What the upstream answered to one forwarded call.
#[derive(Clone, Copy, Debug, PartialEq, Eq, Structural)]
pub enum UpstreamOutcome {
    Success,
    /// The token was rejected although it had been refreshed.
    AuthFailure,
    /// The account is not entitled to the upstream project.
    NotEntitled,
    /// The account's quota for the model is exhausted.
    QuotaExhausted,
}

/// What the dispatcher asks its driver to do next.
#[derive(Clone, Copy, Debug, PartialEq, Eq, Structural)]
pub enum DispatchAction {
    /// Issue the call through the candidate at this index, refreshing
    /// its token first when `after_refresh` is set.
    Call { index: usize, after_refresh: bool },
    /// The last call succeeded; the dispatch is over.
    Done,
    /// Every eligible candidate failed: report a dispatch error.
    Failed,
}

/// An account takes part in routing for `model` when it is eligible and
/// the cache holds a snapshot for it that knows the model; an unknown
/// quota is not zero, it is no candidacy at all.
pub open spec fn routable(a: Account, cache: QuotaCache, model: Seq<char>) -> bool {
    &&& eligible_spec(a)
    &&& cache.spec_models(a.email@) matches Some(ms) && models_get(ms, model) is Some
}

/// The candidate an account contributes for `model`.
pub open spec fn candidate_of(a: Account, cache: QuotaCache, model: Seq<char>) -> Candidate {
    Candidate {
        account_id: a.id,
        email: a.email,
        percentage: models_get(cache.spec_models(a.email@)->Some_0, model)->Some_0.percentage,
    }
}

/// Build the candidate list for a requested model: one candidate per
/// routable account, carrying its cached remaining percentage.
pub fn candidates_for(accounts: &Vec<Account>, cache: &QuotaCache, model: &str) -> (r: Vec<
    Candidate,
>)
    requires
        cache.wf(),
    ensures
        r@ == accounts@.filter(|a: Account| routable(a, *cache, model@)).map_values(
            |a: Account| candidate_of(a, *cache, model@),
        ),
{
    let n = accounts.len();
    let mut out: Vec<Candidate> = Vec::new();
    let mut i: usize = 0;
    proof {
        assert(accounts@.take(0).filter(|a: Account| routable(a, *cache, model@)) =~= Seq::<
            Account,
        >::empty());
        assert(out@ =~= accounts@.take(0).filter(
            |a: Account| routable(a, *cache, model@),
        ).map_values(|a: Account| candidate_of(a, *cache, model@)));
    }
    while i < n
        invariant
            i <= n,
            n == accounts@.len(),
            cache.wf(),
            out@ == accounts@.take(i as int).filter(
                |a: Account| routable(a, *cache, model@),
            ).map_values(|a: Account| candidate_of(a, *cache, model@)),
        decreases n - i,
    {
        let ghost pre = accounts@.take(i as int);
        proof {
            broadcast use Seq::lemma_filter_push;

            assert(accounts@.take(i as int + 1) =~= pre.push(accounts@[i as int]));
        }
        let a = &accounts[i];
        let mut pushed = false;
        if !a.disabled && !a.proxy_disabled {
            match cache.lookup(a.email.as_str()) {
                Some(snapshot) => {
                    match snapshot.find_model(model) {
                        Some(m) => {
                            out.push(
                                Candidate {
                                    account_id: a.id.clone(),
                                    email: a.email.clone(),
                                    percentage: m.percentage,
                                },
                            );
                            pushed = true;
                        },
                        None => {},
                    }
                },
                None => {},
            }
        }
        proof {
            let pred = |a: Account| routable(a, *cache, model@);
            let f = |a: Account| candidate_of(a, *cache, model@);
            if pushed {
                assert(pred(accounts@[i as int]));
                assert(pre.push(accounts@[i as int]).filter(pred).map_values(f) =~= pre.filter(
                    pred,
                ).map_values(f).push(f(accounts@[i as int])));
            } else {
                assert(!pred(accounts@[i as int]));
            }
        }
        i += 1;
    }
    proof {
        assert(accounts@.take(n as int) =~= accounts@);
    }
    out
}

/// `i` is the first index of `cands` carrying the highest percentage.
pub open spec fn is_best_index(cands: Seq<Candidate>, i: int) -> bool {
    &&& 0 <= i < cands.len()
    &&& forall|j: int| 0 <= j < cands.len() ==> (#[trigger] cands[j]).percentage <= cands[i].percentage
    &&& forall|j: int| 0 <= j < i ==> (#[trigger] cands[j]).percentage < cands[i].percentage
}

/// The first index with the highest remaining quota, if any candidate
/// is left.
pub fn select_best(candidates: &Vec<Candidate>) -> (r: Option<usize>)
    ensures
        match r {
            Some(i) => is_best_index(candidates@, i as int),
            None => candidates@.len() == 0,
        },
{
    let n = candidates.len();
    if n == 0 {
        return None;
    }
    let mut best: usize = 0;
    let mut i: usize = 1;
    while i < n
        invariant
            n == candidates@.len(),
            best < i <= n,
            forall|j: int|
                0 <= j < i ==> (#[trigger] candidates@[j]).percentage <= candidates@[
                    best as int].percentage,
            forall|j: int|
                0 <= j < best ==> (#[trigger] candidates@[j]).percentage < candidates@[
                    best as int].percentage,
        decreases n - i,
    {
        if candidates[i].percentage > candidates[best].percentage {
            best = i;
        }
        i += 1;
    }
    Some(best)
}

/// The bounded retry state of one dispatch.
#[derive(Debug)]
pub struct Dispatcher {
    /// Candidates not yet excluded.
    pub candidates: Vec<Candidate>,
    /// Index of the candidate currently being tried, if a call is in
    /// flight.
    pub current: Option<usize>,
    /// Whether the forced refresh-and-retry was already spent on the
    /// current candidate.
    pub refresh_retried: bool,
}

impl Dispatcher {
    pub open spec fn wf(self) -> bool {
        match self.current {
            Some(i) => i < self.candidates@.len(),
            None => true,
        }
    }

    /// Strictly decreases on every step that asks for another call, so
    /// the number of calls is bounded by twice the eligible candidates.
    pub open spec fn measure(self) -> int {
        2 * self.candidates@.len() + (match self.current {
            Some(_) => if self.refresh_retried {
                0int
            } else {
                1int
            },
            None => 0int,
        })
    }

    /// Begin a dispatch over these candidates: try the one with the
    /// most remaining quota first, or fail at once when none is
    /// eligible.
    pub fn start(candidates: Vec<Candidate>) -> (r: (Dispatcher, DispatchAction))
        ensures
            r.0.wf(),
            r.0.candidates@ == candidates@,
            r.0.refresh_retried == false,
            match r.1 {
                DispatchAction::Call { index, after_refresh } => {
                    &&& !after_refresh
                    &&& is_best_index(candidates@, index as int)
                    &&& r.0.current == Some(index)
                },
                DispatchAction::Done => false,
                DispatchAction::Failed => candidates@.len() == 0 && r.0.current is None,
            },
    {
        let current = select_best(&candidates);
        let action = match current {
            Some(i) => DispatchAction::Call { index: i, after_refresh: false },
            None => DispatchAction::Failed,
        };
        (Dispatcher { candidates, current, refresh_retried: false }, action)
    }

    /// Take in the outcome of the call just issued and decide the next
    /// step. A success ends the dispatch; an authentication failure is
    /// retried once against the same candidate after a forced refresh;
    /// an entitlement or quota failure — or a second authentication
    /// failure — excludes the candidate and moves to the best remaining
    /// one; with none left the dispatch fails.
    pub fn on_outcome(&mut self, outcome: UpstreamOutcome) -> (r: DispatchAction)
        requires
            old(self).wf(),
            old(self).current is Some,
        ensures
            final(self).wf(),
            outcome == UpstreamOutcome::Success ==> r == DispatchAction::Done
                && final(self).current is None
                && final(self).candidates@ == old(self).candidates@,
            outcome == UpstreamOutcome::AuthFailure && !old(self).refresh_retried ==> r
                == (DispatchAction::Call {
                index: old(self).current->Some_0,
                after_refresh: true,
            }) && final(self).candidates@ == old(self).candidates@
                && final(self).current == old(self).current && final(self).refresh_retried,
            (outcome == UpstreamOutcome::NotEntitled || outcome == UpstreamOutcome::QuotaExhausted
                || (outcome == UpstreamOutcome::AuthFailure && old(self).refresh_retried)) ==> {
                &&& final(self).candidates@ == old(self).candidates@.remove(
                    old(self).current->Some_0 as int,
                )
                &&& match r {
                    DispatchAction::Call { index, after_refresh } => {
                        &&& !after_refresh
                        &&& is_best_index(final(self).candidates@, index as int)
                        &&& final(self).current == Some(index)
                        &&& !final(self).refresh_retried
                    },
                    DispatchAction::Done => false,
                    DispatchAction::Failed => final(self).candidates@.len() == 0
                        && final(self).current is None,
                }
            },
            r matches DispatchAction::Call { index, after_refresh } ==> final(self).measure()
                < old(self).measure(),
    {
        match outcome {
            UpstreamOutcome::Success => {
                self.current = None;
                DispatchAction::Done
            },
            UpstreamOutcome::AuthFailure => {
                if !self.refresh_retried {
                    self.refresh_retried = true;
                    let i = match self.current {
                        Some(i) => i,
                        None => 0,
                    };
                    DispatchAction::Call { index: i, after_refresh: true }
                } else {
                    self.exclude_current()
                }
            },
            UpstreamOutcome::NotEntitled => self.exclude_current(),
            UpstreamOutcome::QuotaExhausted => self.exclude_current(),
        }
    }

    /// Drop the current candidate and move to the best remaining one.
    fn exclude_current(&mut self) -> (r: DispatchAction)
        requires
            old(self).wf(),
            old(self).current is Some,
        ensures
            final(self).wf(),
            final(self).candidates@ == old(self).candidates@.remove(
                old(self).current->Some_0 as int,
            ),
            match r {
                DispatchAction::Call { index, after_refresh } => {
                    &&& !after_refresh
                    &&& is_best_index(final(self).candidates@, index as int)
                    &&& final(self).current == Some(index)
                    &&& !final(self).refresh_retried
                },
                DispatchAction::Done => false,
                DispatchAction::Failed => final(self).candidates@.len() == 0
                    && final(self).current is None,
            },
            final(self).candidates@.len() + 1 == old(self).candidates@.len(),
    {
        let i = match self.current {
            Some(i) => i,
            None => 0,
        };
        let _ = self.candidates.remove(i);
        self.refresh_retried = false;
        self.current = select_best(&self.candidates);
        match self.current {
            Some(j) => DispatchAction::Call { index: j, after_refresh: false },
            None => DispatchAction::Failed,
        }
    }
}

} // verus!
