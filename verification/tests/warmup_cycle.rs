use account_pool::cooldown::{CooldownKey, CooldownLedger, DEFAULT_COOLDOWN_WINDOW_SECS};
use account_pool::quota::{classify, QuotaClass, QuotaSnapshot};
use account_pool::warmup::{
    filter_cooldown, record_successes, screen_account, screen_accounts, warmup_decide,
    partition_batches, ScreenedAccount, WarmupDecision, WarmupItem, MAX_WARMUP_RETRIES,
};

fn snapshot(models: &[(&str, i32)]) -> QuotaSnapshot {
    let mut snap = QuotaSnapshot::new();
    for (name, pct) in models {
        snap.push_model((*name).to_string(), *pct, None);
    }
    snap
}

fn screened(id: &str, email: &str, models: &[(&str, i32)]) -> ScreenedAccount {
    ScreenedAccount {
        account_id: id.to_string(),
        email: email.to_string(),
        access_token: "token".to_string(),
        project_id: "project".to_string(),
        snapshot: snapshot(models),
    }
}

#[test]
fn classification_thresholds() {
    assert_eq!(classify(100, 95), QuotaClass::Ready);
    assert_eq!(classify(96, 95), QuotaClass::NearReady);
    assert_eq!(classify(95, 95), QuotaClass::NearReady);
    assert_eq!(classify(94, 95), QuotaClass::NotActionable);
}

#[test]
fn cooldown_window_boundaries() {
    let mut ledger = CooldownLedger::new();
    let key = CooldownKey {
        email: "a@x.com".to_string(),
        model: "model-1".to_string(),
        target: "100".to_string(),
    };
    let t0: i64 = 1_700_000_000;
    ledger.record(
        CooldownKey {
            email: "a@x.com".to_string(),
            model: "model-1".to_string(),
            target: "100".to_string(),
        },
        t0,
    );
    assert!(ledger.is_cooling_down(&key, DEFAULT_COOLDOWN_WINDOW_SECS, t0 + 1000));
    assert!(!ledger.is_cooling_down(&key, DEFAULT_COOLDOWN_WINDOW_SECS, t0 + 14401));
}

fn screen_three_accounts() -> (Vec<WarmupItem>, bool) {
    let accounts = vec![
        screened("id-1", "one@x.com", &[("m1", 100), ("m2", 50)]),
        screened("id-2", "two@x.com", &[("m1", 40), ("m2", 10)]),
        screened("id-3", "three@x.com", &[("m1", 80)]),
    ];
    screen_accounts(&accounts, 95)
}

#[test]
fn screening_pass_triggers_one_item() {
    let t0: i64 = 1_700_000_000;
    let ledger_start = CooldownLedger::new();
    let (items, near_ready) = screen_three_accounts();
    assert_eq!(items.len(), 1);
    assert_eq!(items[0].email, "one@x.com");
    assert_eq!(items[0].model, "m1");
    assert_eq!(items[0].percentage, 100);
    assert!(!near_ready);

    let (kept, skipped) = filter_cooldown(items, &ledger_start, DEFAULT_COOLDOWN_WINDOW_SECS, t0);
    assert_eq!(kept.len(), 1);
    assert_eq!(skipped, 0);

    let decision = warmup_decide(kept, skipped, near_ready, 0);
    let to_run = match decision {
        WarmupDecision::Execute(v) => v,
        other => panic!("expected execution, got {:?}", other),
    };
    assert_eq!(to_run.len(), 1);

    // Execute: the single call succeeds, and the ledger gains one entry.
    let mut ledger = ledger_start;
    let results: Vec<(WarmupItem, bool)> = to_run.into_iter().map(|it| (it, true)).collect();
    let successes = record_successes(&mut ledger, &results, t0);
    assert_eq!(successes, 1);
    assert_eq!(ledger.entries.len(), 1);
    let key = CooldownKey {
        email: "one@x.com".to_string(),
        model: "m1".to_string(),
        target: "100".to_string(),
    };
    assert!(ledger.is_cooling_down(&key, DEFAULT_COOLDOWN_WINDOW_SECS, t0 + 1));
}

#[test]
fn rerun_within_window_skips_cooled_item() {
    let t0: i64 = 1_700_000_000;
    let mut ledger = CooldownLedger::new();
    let (items, near_ready) = screen_three_accounts();
    let results: Vec<(WarmupItem, bool)> = items.iter().map(|it| (it.clone(), true)).collect();
    record_successes(&mut ledger, &results, t0);

    // Re-run two hours later: the same candidate is found and dropped.
    let (items2, near2) = screen_three_accounts();
    assert_eq!(items2.len(), 1);
    let (kept, skipped) = filter_cooldown(items2, &ledger, DEFAULT_COOLDOWN_WINDOW_SECS, t0 + 7200);
    assert_eq!(kept.len(), 0);
    assert_eq!(skipped, 1);

    let decision = warmup_decide(kept, skipped, near_ready || near2, 0);
    match decision {
        WarmupDecision::AllCoolingDown { skipped } => assert_eq!(skipped, 1),
        other => panic!("expected all-cooling-down, got {:?}", other),
    }
}

#[test]
fn near_ready_rescans_then_gives_up() {
    let sa = screened("id-1", "one@x.com", &[("m1", 96)]);
    let mut attempt: u32 = 0;
    loop {
        let (items, near_ready) = screen_account(&sa, 95);
        assert!(items.is_empty());
        assert!(near_ready);
        let decision = warmup_decide(items, 0, near_ready, attempt);
        match decision {
            WarmupDecision::Rescan { next_attempt } => {
                assert!(attempt < MAX_WARMUP_RETRIES);
                assert_eq!(next_attempt, attempt + 1);
                attempt = next_attempt;
            }
            WarmupDecision::NothingToWarm => {
                // Gave up only once the retry budget was spent.
                assert_eq!(attempt, MAX_WARMUP_RETRIES);
                break;
            }
            other => panic!("unexpected decision {:?}", other),
        }
    }
}

#[test]
fn batches_partition_in_order() {
    let mut items = Vec::new();
    for k in 0..7 {
        items.push(WarmupItem {
            account_id: format!("id-{}", k),
            email: format!("user{}@x.com", k),
            model: "m1".to_string(),
            access_token: "t".to_string(),
            project_id: "p".to_string(),
            percentage: 100,
        });
    }
    let batches = partition_batches(items, 3);
    assert_eq!(batches.len(), 3);
    assert_eq!(batches[0].len(), 3);
    assert_eq!(batches[1].len(), 3);
    assert_eq!(batches[2].len(), 1);
    assert_eq!(batches[2][0].account_id, "id-6");
}

#[test]
fn failed_items_leave_no_ledger_entry() {
    let t0: i64 = 1_700_000_000;
    let mut ledger = CooldownLedger::new();
    let (items, _) = screen_three_accounts();
    let results: Vec<(WarmupItem, bool)> = items.into_iter().map(|it| (it, false)).collect();
    let successes = record_successes(&mut ledger, &results, t0);
    assert_eq!(successes, 0);
    assert_eq!(ledger.entries.len(), 0);
}
