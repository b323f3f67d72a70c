//! Account-pool orchestration for a quota-limited upstream API.
//!
//! The library keeps a pool of independently authenticated accounts usable:
//! it decides when OAuth tokens must be refreshed, caches per-account quota
//! snapshots with a stale fallback, records warmup cooldowns, screens
//! accounts for models worth warming, and routes requests to the account
//! with the most remaining quota. Every decision here is a function from
//! plain values to plain values; the surrounding process performs the
//! network and file work and feeds the outcomes back in.

pub mod account;
mod clock;
pub mod cooldown;
pub mod dispatch;
pub mod droid;
pub mod pool;
pub mod quota;
pub mod refresh;
pub mod resolver;
pub mod strutil;
pub mod update;
pub mod versions;
pub mod warmup;
