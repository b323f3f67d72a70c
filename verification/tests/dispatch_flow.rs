use account_pool::account::{Account, Token};
use account_pool::dispatch::{
    candidates_for, select_best, Candidate, DispatchAction, Dispatcher, UpstreamOutcome,
};
use account_pool::quota::{QuotaCache, QuotaSnapshot};

fn candidate(id: &str, pct: i32) -> Candidate {
    Candidate {
        account_id: id.to_string(),
        email: format!("{}@x.com", id),
        percentage: pct,
    }
}

#[test]
fn routing_prefers_highest_quota_then_fails_over_once() {
    // Account A at 10%, account B at 90%: B is tried first.
    let candidates = vec![candidate("a", 10), candidate("b", 90)];
    let (mut dispatcher, action) = Dispatcher::start(candidates);
    let first = match action {
        DispatchAction::Call { index, after_refresh } => {
            assert!(!after_refresh);
            index
        }
        other => panic!("expected a call, got {:?}", other),
    };
    assert_eq!(dispatcher.candidates[first].account_id, "b");

    // B fails with an entitlement error: exactly one retry, against A.
    let action = dispatcher.on_outcome(UpstreamOutcome::NotEntitled);
    let second = match action {
        DispatchAction::Call { index, after_refresh } => {
            assert!(!after_refresh);
            index
        }
        other => panic!("expected a retry against the next account, got {:?}", other),
    };
    assert_eq!(dispatcher.candidates[second].account_id, "a");

    // A fails too: the dispatch reports the final error.
    let action = dispatcher.on_outcome(UpstreamOutcome::QuotaExhausted);
    assert_eq!(action, DispatchAction::Failed);
}

#[test]
fn auth_failure_forces_one_refresh_and_retry() {
    let candidates = vec![candidate("a", 50)];
    let (mut dispatcher, action) = Dispatcher::start(candidates);
    let first = match action {
        DispatchAction::Call { index, .. } => index,
        other => panic!("expected a call, got {:?}", other),
    };

    // First auth failure: same account again, after a forced refresh.
    let action = dispatcher.on_outcome(UpstreamOutcome::AuthFailure);
    match action {
        DispatchAction::Call { index, after_refresh } => {
            assert_eq!(index, first);
            assert!(after_refresh);
        }
        other => panic!("expected a refresh-and-retry, got {:?}", other),
    }

    // A second auth failure excludes the account; none are left.
    let action = dispatcher.on_outcome(UpstreamOutcome::AuthFailure);
    assert_eq!(action, DispatchAction::Failed);
}

#[test]
fn success_ends_the_dispatch() {
    let candidates = vec![candidate("a", 10), candidate("b", 90)];
    let (mut dispatcher, _) = Dispatcher::start(candidates);
    let action = dispatcher.on_outcome(UpstreamOutcome::Success);
    assert_eq!(action, DispatchAction::Done);
    assert_eq!(dispatcher.candidates.len(), 2);
}

#[test]
fn no_candidates_fails_immediately() {
    let (_, action) = Dispatcher::start(Vec::new());
    assert_eq!(action, DispatchAction::Failed);
}

#[test]
fn candidates_come_from_cached_quota_of_eligible_accounts() {
    fn account(id: &str, disabled: bool) -> Account {
        Account {
            id: id.to_string(),
            email: format!("{}@x.com", id),
            token: Token {
                access_token: "a".to_string(),
                refresh_token: "r".to_string(),
                expiry: 0,
            },
            project_id: None,
            disabled,
            proxy_disabled: false,
        }
    }
    let accounts = vec![account("a", false), account("b", false), account("c", true), account("d", false)];

    let mut cache = QuotaCache::new();
    let mut snap_a = QuotaSnapshot::new();
    snap_a.push_model("m1".to_string(), 10, None);
    cache.apply_fetch_outcome("a@x.com", Ok(snap_a)).unwrap();
    let mut snap_b = QuotaSnapshot::new();
    snap_b.push_model("m1".to_string(), 90, None);
    snap_b.push_model("m2".to_string(), 5, None);
    cache.apply_fetch_outcome("b@x.com", Ok(snap_b)).unwrap();
    let mut snap_c = QuotaSnapshot::new();
    snap_c.push_model("m1".to_string(), 100, None);
    cache.apply_fetch_outcome("c@x.com", Ok(snap_c)).unwrap();
    // d has no snapshot at all: unknown quota is no candidacy.

    let candidates = candidates_for(&accounts, &cache, "m1");
    assert_eq!(candidates.len(), 2);
    assert_eq!(candidates[0].account_id, "a");
    assert_eq!(candidates[0].percentage, 10);
    assert_eq!(candidates[1].account_id, "b");
    assert_eq!(candidates[1].percentage, 90);

    // The dispatch over them picks b first.
    let (dispatcher, action) = Dispatcher::start(candidates);
    match action {
        DispatchAction::Call { index, .. } => {
            assert_eq!(dispatcher.candidates[index].account_id, "b")
        }
        other => panic!("expected a call, got {:?}", other),
    }
}

#[test]
fn select_best_picks_first_of_equals() {
    let cands = vec![candidate("a", 70), candidate("b", 70), candidate("c", 20)];
    assert_eq!(select_best(&cands), Some(0));
    assert_eq!(select_best(&Vec::new()), None);
}
