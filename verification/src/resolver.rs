//! Project resolver: every upstream call needs the account's project
//! identifier, resolved once per account through a handshake and cached
//! on the account. The handshake itself is a network call of the
//! surrounding process; its response field comes back here.

use vstd::prelude::*;
use crate::account::{Account, AccountStore, clone_account};

verus! {

/// Why no project id could be produced.
#[derive(Clone, Copy, Debug, PartialEq, Eq, Structural)]
pub enum ResolveError {
    /// The handshake answered without a project id: the account is not
    /// entitled, and routing must exclude it rather than retry.
    NotEntitled,
    /// No account with the given id is in the store.
    AccountNotFound,
}

/// How to obtain the project id for an account.
#[derive(Clone, Debug, PartialEq)]
pub enum ResolvePlan {
    /// A cached id exists: use it, no network call.
    Cached(String),
    /// The one-shot handshake is needed.
    Handshake,
}

/// Decide how to obtain the project id for `account`.
pub fn resolve_plan(account: &Account) -> (r: ResolvePlan)
    ensures
        match account.project_id {
            Some(p) => r == ResolvePlan::Cached(p),
            None => r == ResolvePlan::Handshake,
        },
{
    match &account.project_id {
        Some(p) => ResolvePlan::Cached(p.clone()),
        None => ResolvePlan::Handshake,
    }
}

/// Take in the project field of a handshake response for the stored
/// account `account_id`: a present id is cached on the account with
/// exactly one store write and returned; an absent one is the
/// entitlement failure, and the store keeps untouched.
pub fn apply_resolution(
    store: &mut AccountStore,
    account_id: &str,
    response_project: Option<String>,
) -> (r: Result<String, ResolveError>)
    requires
        old(store).wf(),
        old(store).write_count < u64::MAX,
    ensures
        final(store).wf(),
        match r {
            Ok(p) => {
                &&& response_project == Some(p)
                &&& old(store).has_id(account_id@)
                &&& final(store).write_count == old(store).write_count + 1
                &&& final(store).spec_get(account_id@) == Some(
                    Account {
                        project_id: Some(p),
                        ..old(store).spec_get(account_id@)->Some_0
                    },
                )
                &&& forall|id: Seq<char>|
                    id != account_id@ ==> #[trigger] final(store).spec_get(id)
                        == old(store).spec_get(id)
            },
            Err(e) => {
                &&& *final(store) == *old(store)
                &&& match e {
                    ResolveError::NotEntitled => response_project is None,
                    ResolveError::AccountNotFound => response_project is Some && !old(
                        store,
                    ).has_id(account_id@),
                }
            },
        },
{
    match response_project {
        Some(p) => {
            let found = match store.get(account_id) {
                Some(a) => Some(clone_account(a)),
                None => None,
            };
            match found {
                Some(account) => {
                    let updated = Account { project_id: Some(p.clone()), ..account };
                    store.save(updated);
                    Ok(p)
                },
                None => Err(ResolveError::AccountNotFound),
            }
        },
        None => Err(ResolveError::NotEntitled),
    }
}

} // verus!
