//! Warmup orchestrator: screen eligible accounts' quota snapshots for
//! ready models, drop candidates still cooling down, and decide whether
//! to execute a batch, rescan after a delay, or report nothing to do.
//!
//! The network calls of a cycle — token refresh, quota fetch, the warmup
//! ping itself — are performed by the surrounding process, which feeds
//! their outcomes into these functions and obeys the decisions they
//! return.

use vstd::prelude::*;
use crate::account::{Account, clone_account};
use crate::cooldown::{CooldownKey, CooldownLedger, cooling_spec, warmup_key};
use crate::quota::{ModelQuota, QuotaSnapshot, READY_PERCENTAGE};

verus! {

/// Accounts screened concurrently per batch.
pub const SCREEN_BATCH_SIZE: usize = 5;

/// Warmup calls issued concurrently per batch.
pub const EXECUTE_BATCH_SIZE: usize = 3;

/// Most rescans performed when only near-ready models were seen.
pub const MAX_WARMUP_RETRIES: u32 = 3;

/// Seconds to wait before a near-ready rescan.
pub const RETRY_DELAY_SECS: u64 = 30;

/// Seconds to pause between execution batches.
pub const INTER_BATCH_DELAY_SECS: u64 = 2;

/// One warmup job: ephemeral, never persisted.
#[derive(Clone, Debug, PartialEq)]
pub struct WarmupItem {
    pub account_id: String,
    pub email: String,
    pub model: String,
    pub access_token: String,
    pub project_id: String,
    /// The remaining percentage observed at screening time.
    pub percentage: i32,
}

/// An account that passed screening: fresh token, resolved project id,
/// and a quota snapshot to read.
#[derive(Debug)]
pub struct ScreenedAccount {
    pub account_id: String,
    pub email: String,
    pub access_token: String,
    pub project_id: String,
    pub snapshot: QuotaSnapshot,
}

/// An account is eligible for warmup unless disabled outright or
/// excluded from proxy routing.
pub open spec fn eligible_spec(a: Account) -> bool {
    !a.disabled && !a.proxy_disabled
}

/// The accounts eligible for a warmup cycle, in order.
pub fn eligible_accounts(accounts: &Vec<Account>) -> (r: Vec<Account>)
    ensures
        r@ == accounts@.filter(|a: Account| eligible_spec(a)),
{
    let n = accounts.len();
    let mut out: Vec<Account> = Vec::new();
    let mut i: usize = 0;
    proof {
        assert(accounts@.take(0).filter(|a: Account| eligible_spec(a)) =~= Seq::<Account>::empty());
    }
    while i < n
        invariant
            i <= n,
            n == accounts@.len(),
            out@ == accounts@.take(i as int).filter(|a: Account| eligible_spec(a)),
        decreases n - i,
    {
        let a = &accounts[i];
        proof {
            broadcast use Seq::lemma_filter_push;

            assert(accounts@.take(i as int + 1) =~= accounts@.take(i as int).push(accounts@[i as int]));
        }
        if !a.disabled && !a.proxy_disabled {
            out.push(clone_account(a));
        }
        i += 1;
    }
    proof {
        assert(accounts@.take(n as int) =~= accounts@);
    }
    out
}

/// The candidate item a ready model of a screened account yields.
pub open spec fn item_of_model(sa: ScreenedAccount, m: ModelQuota) -> WarmupItem {
    WarmupItem {
        account_id: sa.account_id,
        email: sa.email,
        model: m.name,
        access_token: sa.access_token,
        project_id: sa.project_id,
        percentage: m.percentage,
    }
}

/// The candidates one screened account contributes: one item per ready
/// model, in snapshot order.
pub open spec fn account_items(sa: ScreenedAccount) -> Seq<WarmupItem> {
    sa.snapshot.models@.filter(|m: ModelQuota| m.percentage >= READY_PERCENTAGE).map_values(
        |m: ModelQuota| item_of_model(sa, m),
    )
}

/// Some model of `models` sits in the near-ready band.
pub open spec fn near_ready_in(models: Seq<ModelQuota>, threshold: int) -> bool {
    exists|i: int|
        0 <= i < models.len() && threshold <= (#[trigger] models[i]).percentage
            < READY_PERCENTAGE
}

/// Screen one account's snapshot: collect a candidate per ready model
/// (names are unique in a well-formed snapshot, so no model repeats) and
/// report whether any near-ready model was seen.
pub fn screen_account(sa: &ScreenedAccount, threshold: i32) -> (r: (Vec<WarmupItem>, bool))
    requires
        sa.snapshot.wf(),
    ensures
        r.0@ == account_items(*sa),
        r.1 == near_ready_in(sa.snapshot.models@, threshold as int),
{
    let n = sa.snapshot.models.len();
    let mut items: Vec<WarmupItem> = Vec::new();
    let mut near_ready = false;
    let mut i: usize = 0;
    proof {
        assert(sa.snapshot.models@.take(0).filter(|m: ModelQuota| m.percentage >= READY_PERCENTAGE)
            =~= Seq::<ModelQuota>::empty());
        assert(items@ =~= sa.snapshot.models@.take(0).filter(
            |m: ModelQuota| m.percentage >= READY_PERCENTAGE,
        ).map_values(|m: ModelQuota| item_of_model(*sa, m)));
    }
    while i < n
        invariant
            i <= n,
            n == sa.snapshot.models@.len(),
            items@ == sa.snapshot.models@.take(i as int).filter(
                |m: ModelQuota| m.percentage >= READY_PERCENTAGE,
            ).map_values(|m: ModelQuota| item_of_model(*sa, m)),
            near_ready == near_ready_in(sa.snapshot.models@.take(i as int), threshold as int),
        decreases n - i,
    {
        let m = &sa.snapshot.models[i];
        let ghost pre = sa.snapshot.models@.take(i as int);
        proof {
            broadcast use Seq::lemma_filter_push;

            assert(sa.snapshot.models@.take(i as int + 1) =~= pre.push(
                sa.snapshot.models@[i as int],
            ));
        }
        if m.percentage >= READY_PERCENTAGE {
            items.push(WarmupItem {
                account_id: sa.account_id.clone(),
                email: sa.email.clone(),
                model: m.name.clone(),
                access_token: sa.access_token.clone(),
                project_id: sa.project_id.clone(),
                percentage: m.percentage,
            });
            proof {
                let pred = |m: ModelQuota| m.percentage >= READY_PERCENTAGE;
                let f = |m: ModelQuota| item_of_model(*sa, m);
                assert(pre.push(sa.snapshot.models@[i as int]).filter(pred).map_values(f) =~= pre
                    .filter(pred).map_values(f).push(f(sa.snapshot.models@[i as int])));
            }
        } else if m.percentage >= threshold {
            near_ready = true;
        }
        proof {
            let tk = sa.snapshot.models@.take(i as int + 1);
            let m_i = sa.snapshot.models@[i as int];
            assert(near_ready_in(tk, threshold as int) == (near_ready_in(pre, threshold as int)
                || (threshold as int <= m_i.percentage < READY_PERCENTAGE))) by {
                if near_ready_in(pre, threshold as int) {
                    let k = choose|k: int|
                        0 <= k < pre.len() && threshold as int <= (#[trigger] pre[k]).percentage
                            < READY_PERCENTAGE;
                    assert(tk[k] == pre[k]);
                    assert(threshold as int <= tk[k].percentage < READY_PERCENTAGE);
                    assert(near_ready_in(tk, threshold as int));
                }
                if threshold as int <= m_i.percentage < READY_PERCENTAGE {
                    assert(tk[pre.len() as int] == m_i);
                    assert(threshold as int <= tk[pre.len() as int].percentage < READY_PERCENTAGE);
                    assert(near_ready_in(tk, threshold as int));
                }
                if near_ready_in(tk, threshold as int) {
                    let k = choose|k: int|
                        0 <= k < tk.len() && threshold as int <= (#[trigger] tk[k]).percentage
                            < READY_PERCENTAGE;
                    if k < pre.len() {
                        assert(pre[k] == tk[k]);
                        assert(threshold as int <= pre[k].percentage < READY_PERCENTAGE);
                        assert(near_ready_in(pre, threshold as int));
                    } else {
                        assert(tk[k] == m_i);
                    }
                }
            }
        }
        i += 1;
    }
    proof {
        assert(sa.snapshot.models@.take(n as int) =~= sa.snapshot.models@);
    }
    (items, near_ready)
}

/// Some account of the screened batch saw a near-ready model.
pub open spec fn any_near_ready(screened: Seq<ScreenedAccount>, threshold: int) -> bool {
    exists|i: int|
        0 <= i < screened.len() && near_ready_in(
            (#[trigger] screened[i]).snapshot.models@,
            threshold,
        )
}

/// Screen a whole batch of accounts: the candidates of each account in
/// order, and whether any account saw a near-ready model. An account
/// that failed screening is simply absent from the input: its failure
/// excludes only itself.
pub fn screen_accounts(screened: &Vec<ScreenedAccount>, threshold: i32) -> (r: (
    Vec<WarmupItem>,
    bool,
))
    requires
        forall|i: int| 0 <= i < screened@.len() ==> (#[trigger] screened@[i]).snapshot.wf(),
    ensures
        r.0@ == screened@.map_values(|sa: ScreenedAccount| account_items(sa)).flatten(),
        r.1 == any_near_ready(screened@, threshold as int),
{
    let n = screened.len();
    let mut items: Vec<WarmupItem> = Vec::new();
    let mut near_ready = false;
    let mut i: usize = 0;
    proof {
        assert(screened@.take(0).map_values(|sa: ScreenedAccount| account_items(sa)).flatten()
            =~= Seq::<WarmupItem>::empty());
    }
    while i < n
        invariant
            i <= n,
            n == screened@.len(),
            forall|j: int| 0 <= j < n ==> (#[trigger] screened@[j]).snapshot.wf(),
            items@ == screened@.take(i as int).map_values(
                |sa: ScreenedAccount| account_items(sa),
            ).flatten(),
            near_ready == any_near_ready(screened@.take(i as int), threshold as int),
        decreases n - i,
    {
        let (mut found, near) = screen_account(&screened[i], threshold);
        let ghost pre = screened@.take(i as int);
        let ghost foundv = found@;
        items.append(&mut found);
        proof {
            broadcast use Seq::lemma_flatten_push;

            assert(screened@.take(i as int + 1) =~= pre.push(screened@[i as int]));
            let premap = pre.map_values(|sa: ScreenedAccount| account_items(sa));
            assert(screened@.take(i as int + 1).map_values(
                |sa: ScreenedAccount| account_items(sa),
            ) =~= premap.push(account_items(screened@[i as int])));
            assert(premap.push(account_items(screened@[i as int])).flatten() =~= premap.flatten()
                + account_items(screened@[i as int]));
            assert(items@ == premap.flatten() + foundv);
        }
        let saw_near = near;
        proof {
            let tk = screened@.take(i as int + 1);
            assert(any_near_ready(tk, threshold as int) == (any_near_ready(pre, threshold as int)
                || near_ready_in(screened@[i as int].snapshot.models@, threshold as int))) by {
                if any_near_ready(pre, threshold as int) {
                    let k = choose|k: int|
                        0 <= k < pre.len() && near_ready_in(
                            (#[trigger] pre[k]).snapshot.models@,
                            threshold as int,
                        );
                    assert(tk[k] == pre[k]);
                    assert(any_near_ready(tk, threshold as int));
                }
                if near_ready_in(screened@[i as int].snapshot.models@, threshold as int) {
                    assert(tk[pre.len() as int] == screened@[i as int]);
                    assert(any_near_ready(tk, threshold as int));
                }
                if any_near_ready(tk, threshold as int) {
                    let k = choose|k: int|
                        0 <= k < tk.len() && near_ready_in(
                            (#[trigger] tk[k]).snapshot.models@,
                            threshold as int,
                        );
                    if k < pre.len() {
                        assert(pre[k] == tk[k]);
                        assert(any_near_ready(pre, threshold as int));
                    } else {
                        assert(tk[k] == screened@[i as int]);
                    }
                }
            }
        }
        near_ready = near_ready || saw_near;
        i += 1;
    }
    proof {
        assert(screened@.take(n as int) =~= screened@);
    }
    (items, near_ready)
}

/// The warmup deduplication key of a candidate targets the ready bucket.
pub open spec fn item_key(it: WarmupItem) -> (Seq<char>, Seq<char>, Seq<char>) {
    (it.email@, it.model@, "100"@)
}

/// The candidate is suppressed by a ledger entry within the window.
pub open spec fn item_cooling(
    it: WarmupItem,
    entries: Seq<(CooldownKey, i64)>,
    window_seconds: i64,
    now: i64,
) -> bool {
    cooling_spec(entries, item_key(it), window_seconds, now)
}

/// Drop every candidate whose key is cooling down; also report how many
/// were dropped.
pub fn filter_cooldown(
    items: Vec<WarmupItem>,
    ledger: &CooldownLedger,
    window_seconds: i64,
    now: i64,
) -> (r: (Vec<WarmupItem>, usize))
    requires
        ledger.wf(),
    ensures
        r.0@ == items@.filter(
            |it: WarmupItem| !item_cooling(it, ledger.entries@, window_seconds, now),
        ),
        r.1 + r.0@.len() == items@.len(),
{
    let n = items.len();
    let mut kept: Vec<WarmupItem> = Vec::new();
    let mut skipped: usize = 0;
    let mut i: usize = 0;
    proof {
        assert(items@.take(0).filter(
            |it: WarmupItem| !item_cooling(it, ledger.entries@, window_seconds, now),
        ) =~= Seq::<WarmupItem>::empty());
    }
    while i < n
        invariant
            i <= n,
            n == items@.len(),
            ledger.wf(),
            kept@ == items@.take(i as int).filter(
                |it: WarmupItem| !item_cooling(it, ledger.entries@, window_seconds, now),
            ),
            skipped + kept@.len() == i,
        decreases n - i,
    {
        proof {
            broadcast use Seq::lemma_filter_push;

            assert(items@.take(i as int + 1) =~= items@.take(i as int).push(items@[i as int]));
        }
        let it = &items[i];
        let key = warmup_key(it.email.as_str(), it.model.as_str());
        if ledger.is_cooling_down(&key, window_seconds, now) {
            skipped += 1;
        } else {
            kept.push(clone_item(it));
        }
        i += 1;
    }
    proof {
        assert(items@.take(n as int) =~= items@);
    }
    (kept, skipped)
}

/// A field-for-field copy of a candidate.
pub fn clone_item(it: &WarmupItem) -> (r: WarmupItem)
    ensures
        r == *it,
{
    WarmupItem {
        account_id: it.account_id.clone(),
        email: it.email.clone(),
        model: it.model.clone(),
        access_token: it.access_token.clone(),
        project_id: it.project_id.clone(),
        percentage: it.percentage,
    }
}

/// What a warmup cycle does next, decided after cooldown filtering.
#[derive(Debug)]
pub enum WarmupDecision {
    /// Execute these candidates as a detached background job and report
    /// how many were triggered.
    Execute(Vec<WarmupItem>),
    /// Every candidate was dropped by cooldown: report the count, warm
    /// nothing.
    AllCoolingDown { skipped: usize },
    /// Nothing ready, but a near-ready model was seen and the retry
    /// budget is not exhausted: wait and screen again as this attempt.
    Rescan { next_attempt: u32 },
    /// No model needs warmup.
    NothingToWarm,
}

/// Decide a cycle's next step from the filtered candidates, the skipped
/// count, whether a near-ready model was seen, and the attempt number.
pub fn warmup_decide(
    items: Vec<WarmupItem>,
    skipped: usize,
    near_ready: bool,
    attempt: u32,
) -> (r: WarmupDecision)
    ensures
        match r {
            WarmupDecision::Execute(v) => v@ == items@ && items@.len() > 0,
            WarmupDecision::AllCoolingDown { skipped: s } => items@.len() == 0 && skipped > 0 && s
                == skipped,
            WarmupDecision::Rescan { next_attempt } => items@.len() == 0 && skipped == 0
                && near_ready && attempt < MAX_WARMUP_RETRIES && next_attempt == attempt + 1,
            WarmupDecision::NothingToWarm => items@.len() == 0 && skipped == 0 && !(near_ready
                && attempt < MAX_WARMUP_RETRIES),
        },
{
    if items.len() > 0 {
        WarmupDecision::Execute(items)
    } else if skipped > 0 {
        WarmupDecision::AllCoolingDown { skipped }
    } else if near_ready && attempt < MAX_WARMUP_RETRIES {
        WarmupDecision::Rescan { next_attempt: attempt + 1 }
    } else {
        WarmupDecision::NothingToWarm
    }
}

/// Split the candidates into executable batches: concatenated in order
/// they are exactly the input, no batch is empty, and none exceeds
/// `batch_size`.
pub fn partition_batches(items: Vec<WarmupItem>, batch_size: usize) -> (r: Vec<Vec<WarmupItem>>)
    requires
        batch_size >= 1,
    ensures
        r@.map_values(|b: Vec<WarmupItem>| b@).flatten() == items@,
        forall|i: int| 0 <= i < r@.len() ==> 0 < (#[trigger] r@[i])@.len() <= batch_size,
{
    let n = items.len();
    let mut batches: Vec<Vec<WarmupItem>> = Vec::new();
    let mut cur: Vec<WarmupItem> = Vec::new();
    let mut i: usize = 0;
    proof {
        assert(batches@.map_values(|b: Vec<WarmupItem>| b@).flatten() + cur@ =~= items@.take(0));
    }
    while i < n
        invariant
            i <= n,
            n == items@.len(),
            batch_size >= 1,
            batches@.map_values(|b: Vec<WarmupItem>| b@).flatten() + cur@ == items@.take(i as int),
            cur@.len() < batch_size,
            forall|j: int| 0 <= j < batches@.len() ==> 0 < (#[trigger] batches@[j])@.len() <= batch_size,
        decreases n - i,
    {
        let ghost prev_flat = batches@.map_values(|b: Vec<WarmupItem>| b@).flatten();
        let ghost curv = cur@;
        cur.push(clone_item(&items[i]));
        proof {
            assert(items@.take(i as int + 1) =~= items@.take(i as int).push(items@[i as int]));
            assert(cur@ == curv.push(items@[i as int]));
            assert(prev_flat + cur@ =~= (prev_flat + curv).push(items@[i as int]));
            assert(prev_flat + cur@ =~= items@.take(i as int + 1));
        }
        if cur.len() == batch_size {
            let full = cur;
            cur = Vec::new();
            let ghost prev_batches = batches@;
            let ghost fullv = full@;
            batches.push(full);
            proof {
                broadcast use Seq::lemma_flatten_push;

                let prevmap = prev_batches.map_values(|b: Vec<WarmupItem>| b@);
                assert(batches@.map_values(|b: Vec<WarmupItem>| b@) =~= prevmap.push(fullv));
                assert(prevmap.push(fullv).flatten() =~= prevmap.flatten() + fullv);
                assert(batches@.map_values(|b: Vec<WarmupItem>| b@).flatten() + cur@ =~= items@
                    .take(i as int + 1));
            }
        }
        i += 1;
    }
    proof {
        assert(items@.take(n as int) =~= items@);
    }
    if cur.len() > 0 {
        let ghost prev_batches = batches@;
        let ghost tail = cur@;
        batches.push(cur);
        proof {
            broadcast use Seq::lemma_flatten_push;

            let prevmap = prev_batches.map_values(|b: Vec<WarmupItem>| b@);
            assert(batches@.map_values(|b: Vec<WarmupItem>| b@) =~= prevmap.push(tail));
            assert(prevmap.push(tail).flatten() =~= prevmap.flatten() + tail);
            assert(batches@.map_values(|b: Vec<WarmupItem>| b@).flatten() =~= items@);
        }
    } else {
        proof {
            assert(batches@.map_values(|b: Vec<WarmupItem>| b@).flatten() =~= items@);
        }
    }
    batches
}

/// A warmup call succeeded when the local endpoint answered 2xx.
pub fn warmup_call_succeeded(status: u16) -> (r: bool)
    ensures
        r == (200 <= status < 300),
{
    200 <= status && status < 300
}

/// Record each successful item of an executed batch in the ledger at
/// `now` — success by success, so a crash mid-job cannot re-fire what
/// was already warmed — and return the number of successes. A failed
/// item leaves no entry and so is naturally eligible again.
pub fn record_successes(
    ledger: &mut CooldownLedger,
    results: &Vec<(WarmupItem, bool)>,
    now: i64,
) -> (count: usize)
    requires
        old(ledger).wf(),
    ensures
        final(ledger).wf(),
        count == results@.filter(|p: (WarmupItem, bool)| p.1).len(),
        forall|i: int|
            0 <= i < results@.len() && (#[trigger] results@[i]).1
                ==> final(ledger).spec_last_fired(item_key(results@[i].0)) == Some(now),
        forall|k: (Seq<char>, Seq<char>, Seq<char>)|
            (forall|i: int|
                0 <= i < results@.len() ==> !((#[trigger] results@[i]).1 && item_key(results@[i].0)
                    == k)) ==> #[trigger] final(ledger).spec_last_fired(k)
                == old(ledger).spec_last_fired(k),
{
    let n = results.len();
    let mut count: usize = 0;
    let mut i: usize = 0;
    proof {
        assert(results@.take(0).filter(|p: (WarmupItem, bool)| p.1) =~= Seq::<(
            WarmupItem,
            bool,
        )>::empty());
    }
    while i < n
        invariant
            i <= n,
            n == results@.len(),
            ledger.wf(),
            count == results@.take(i as int).filter(|p: (WarmupItem, bool)| p.1).len(),
            forall|j: int|
                0 <= j < i && (#[trigger] results@[j]).1 ==> ledger.spec_last_fired(
                    item_key(results@[j].0),
                ) == Some(now),
            forall|k: (Seq<char>, Seq<char>, Seq<char>)|
                (forall|j: int|
                    0 <= j < i ==> !((#[trigger] results@[j]).1 && item_key(results@[j].0) == k))
                    ==> #[trigger] ledger.spec_last_fired(k) == old(ledger).spec_last_fired(k),
        decreases n - i,
    {
        proof {
            broadcast use Seq::lemma_filter_push;

            assert(results@.take(i as int + 1) =~= results@.take(i as int).push(
                results@[i as int],
            ));
        }
        let entry = &results[i];
        if entry.1 {
            let key = warmup_key(entry.0.email.as_str(), entry.0.model.as_str());
            proof {
                assert(crate::cooldown::key_view(key) == item_key(results@[i as int].0));
            }
            ledger.record(key, now);
            count += 1;
        }
        i += 1;
    }
    proof {
        assert(results@.take(n as int) =~= results@);
    }
    count
}

} // verus!
