use account_pool::account::{Account, AccountStore, StoreError, Token};
use account_pool::refresh::{
    apply_refresh, ensure_fresh, AuthError, TokenCheck, TokenGrant, TOKEN_EXPIRY_SKEW_SECS,
};

fn account(id: &str, email: &str, expiry: i64) -> Account {
    Account {
        id: id.to_string(),
        email: email.to_string(),
        token: Token {
            access_token: format!("access-{}", id),
            refresh_token: format!("refresh-{}", id),
            expiry,
        },
        project_id: None,
        disabled: false,
        proxy_disabled: false,
    }
}

#[test]
fn expired_token_is_exchanged_and_persisted_once() {
    let now: i64 = 1_700_000_000;
    let mut store = AccountStore::new();
    store.save(account("id-1", "one@x.com", now - 10));
    let writes_before = store.write_count;

    let acc = store.get("id-1").unwrap().clone();
    let check = ensure_fresh(&acc, now);
    let refresh_token = match check {
        TokenCheck::NeedsExchange(rt) => rt,
        TokenCheck::Fresh(_) => panic!("an expired token must not be served"),
    };
    assert_eq!(refresh_token, "refresh-id-1");

    // The identity provider answers; applying the grant writes exactly once.
    let grant = TokenGrant {
        access_token: "access-new".to_string(),
        refresh_token: Some("refresh-new".to_string()),
        expires_in: 3600,
    };
    let new_token = apply_refresh(&mut store, "id-1", grant, now).unwrap();
    assert!(new_token.expiry > now);
    assert_eq!(new_token.expiry, now + 3600);
    assert_eq!(new_token.access_token, "access-new");
    assert_eq!(store.write_count, writes_before + 1);

    let stored = store.get("id-1").unwrap();
    assert_eq!(stored.token, new_token);
    assert_eq!(stored.email, "one@x.com");
}

#[test]
fn fresh_token_is_served_unchanged_with_zero_writes() {
    let now: i64 = 1_700_000_000;
    let mut store = AccountStore::new();
    let acc = account("id-1", "one@x.com", now + TOKEN_EXPIRY_SKEW_SECS + 1000);
    store.save(acc.clone());
    let writes_before = store.write_count;

    let check = ensure_fresh(store.get("id-1").unwrap(), now);
    match check {
        TokenCheck::Fresh(t) => assert_eq!(t, acc.token),
        TokenCheck::NeedsExchange(_) => panic!("a fresh token must be served as it is"),
    }
    // No store operation took place on the fresh path.
    assert_eq!(store.write_count, writes_before);
}

#[test]
fn token_within_skew_counts_as_expired() {
    let now: i64 = 1_700_000_000;
    let acc = account("id-1", "one@x.com", now + TOKEN_EXPIRY_SKEW_SECS);
    match ensure_fresh(&acc, now) {
        TokenCheck::NeedsExchange(_) => {}
        TokenCheck::Fresh(_) => panic!("a token inside the safety skew must be refreshed"),
    }
}

#[test]
fn refresh_for_unknown_account_changes_nothing() {
    let now: i64 = 1_700_000_000;
    let mut store = AccountStore::new();
    store.save(account("id-1", "one@x.com", now - 10));
    let writes_before = store.write_count;
    let grant = TokenGrant {
        access_token: "a".to_string(),
        refresh_token: None,
        expires_in: 3600,
    };
    let r = apply_refresh(&mut store, "id-9", grant, now);
    assert_eq!(r, Err(StoreError::AccountNotFound));
    assert_eq!(store.write_count, writes_before);
}

#[test]
fn grant_without_rotation_keeps_refresh_token() {
    let now: i64 = 1_700_000_000;
    let mut store = AccountStore::new();
    store.save(account("id-1", "one@x.com", now - 10));
    let grant = TokenGrant {
        access_token: "access-new".to_string(),
        refresh_token: None,
        expires_in: 60,
    };
    let t = apply_refresh(&mut store, "id-1", grant, now).unwrap();
    assert_eq!(t.refresh_token, "refresh-id-1");
}

#[test]
fn auth_error_variants_are_distinct() {
    assert_ne!(AuthError::RefreshRejected, AuthError::ProviderUnreachable);
}

#[test]
fn store_save_replaces_by_id() {
    let now: i64 = 1_700_000_000;
    let mut store = AccountStore::new();
    store.save(account("id-1", "one@x.com", now));
    store.save(account("id-2", "two@x.com", now));
    store.save(account("id-1", "one-renamed@x.com", now));
    assert_eq!(store.list().len(), 2);
    assert_eq!(store.get("id-1").unwrap().email, "one-renamed@x.com");
    assert_eq!(store.get("id-2").unwrap().email, "two@x.com");
    assert!(store.get("id-3").is_none());
    assert_eq!(store.write_count, 3);
}
