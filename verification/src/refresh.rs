//! Token refresher: decide whether an account's token is still usable,
//! and persist the outcome of an OAuth refresh-token exchange.
//!
//! The exchange itself is a network call the surrounding process makes;
//! it hands the resulting grant (or its failure, as an `AuthError`) back
//! to `apply_refresh`. A token safely in the future is served as it is,
//! with no store write; a refresh persists exactly one write.

use vstd::prelude::*;
use crate::account::{Account, AccountStore, StoreError, Token, clone_account, clone_token};

verus! {

/// Safety skew: a token is treated as expired this many seconds early.
pub const TOKEN_EXPIRY_SKEW_SECS: i64 = 300;

/// Why a usable token could not be produced.
#[derive(Clone, Copy, Debug, PartialEq, Eq, Structural)]
pub enum AuthError {
    /// The identity provider rejected the refresh token.
    RefreshRejected,
    /// The identity provider could not be reached.
    ProviderUnreachable,
}

/// The body of a successful refresh-token exchange.
#[derive(Clone, Debug, PartialEq)]
pub struct TokenGrant {
    pub access_token: String,
    /// A rotated refresh token, where the provider issued one.
    pub refresh_token: Option<String>,
    /// Lifetime of the new access token, in seconds.
    pub expires_in: i64,
}

/// `t` is usable at time `now`: its expiry is beyond the safety skew.
pub open spec fn token_fresh_at(t: Token, now: i64) -> bool {
    t.expiry > now + TOKEN_EXPIRY_SKEW_SECS
}

/// The token a grant received at time `now` yields, the old refresh
/// token kept where the provider rotated none.
pub open spec fn token_from_grant(old_token: Token, grant: TokenGrant, now: i64) -> Token {
    Token {
        access_token: grant.access_token,
        refresh_token: match grant.refresh_token {
            Some(r) => r,
            None => old_token.refresh_token,
        },
        expiry: (now + grant.expires_in) as i64,
    }
}

/// How to obtain a usable token for an account.
#[derive(Clone, Debug, PartialEq)]
pub enum TokenCheck {
    /// The current token is usable: serve it unchanged.
    Fresh(Token),
    /// An exchange is needed; carries the refresh token to present.
    NeedsExchange(String),
}

/// Decide how to obtain a usable token for `account` at time `now`.
///
/// A token safely in the future is returned unchanged, and no store is
/// touched on that path: the signature takes none, so a no-op call
/// performs zero store writes.
pub fn ensure_fresh(account: &Account, now: i64) -> (r: TokenCheck)
    requires
        now <= i64::MAX - TOKEN_EXPIRY_SKEW_SECS,
    ensures
        token_fresh_at(account.token, now) ==> r == TokenCheck::Fresh(account.token),
        !token_fresh_at(account.token, now) ==> r == TokenCheck::NeedsExchange(
            account.token.refresh_token,
        ),
{
    if account.token.expiry > now + TOKEN_EXPIRY_SKEW_SECS {
        TokenCheck::Fresh(clone_token(&account.token))
    } else {
        TokenCheck::NeedsExchange(account.token.refresh_token.clone())
    }
}

/// Persist the outcome of a refresh-token exchange for the stored
/// account `account_id`: rotate its token atomically, with exactly one
/// store write, and return the new token.
pub fn apply_refresh(
    store: &mut AccountStore,
    account_id: &str,
    grant: TokenGrant,
    now: i64,
) -> (r: Result<Token, StoreError>)
    requires
        old(store).wf(),
        old(store).write_count < u64::MAX,
        0 <= grant.expires_in,
        now + grant.expires_in <= i64::MAX,
        0 <= now,
    ensures
        final(store).wf(),
        match r {
            Ok(t) => {
                &&& old(store).has_id(account_id@)
                &&& t == token_from_grant(
                    old(store).spec_get(account_id@)->Some_0.token,
                    grant,
                    now,
                )
                &&& t.expiry == now + grant.expires_in
                &&& final(store).write_count == old(store).write_count + 1
                &&& final(store).spec_get(account_id@) == Some(
                    Account { token: t, ..old(store).spec_get(account_id@)->Some_0 },
                )
                &&& forall|id: Seq<char>|
                    id != account_id@ ==> #[trigger] final(store).spec_get(id) == old(
                        store,
                    ).spec_get(id)
            },
            Err(e) => {
                &&& e == StoreError::AccountNotFound
                &&& !old(store).has_id(account_id@)
                &&& *final(store) == *old(store)
            },
        },
{
    let found = match store.get(account_id) {
        Some(a) => Some(clone_account(a)),
        None => None,
    };
    match found {
        Some(account) => {
            let new_token = Token {
                access_token: grant.access_token,
                refresh_token: match grant.refresh_token {
                    Some(r) => r,
                    None => account.token.refresh_token.clone(),
                },
                expiry: now + grant.expires_in,
            };
            let updated = Account { token: clone_token(&new_token), ..account };
            store.save(updated);
            Ok(new_token)
        },
        None => Err(StoreError::AccountNotFound),
    }
}

/// An expired token is never served: the decision for it is an exchange,
/// and the token a grant yields expires in the future.
pub proof fn lemma_refresh_expired_token(account: Account, now: i64, grant: TokenGrant)
    requires
        account.token.expiry <= now,
        0 <= now <= i64::MAX - TOKEN_EXPIRY_SKEW_SECS,
        1 <= grant.expires_in,
        now + grant.expires_in <= i64::MAX,
    ensures
        !token_fresh_at(account.token, now),
        token_from_grant(account.token, grant, now).expiry > now,
{
}

} // verus!
