//! Client pool policy: which timeout class and which upstream proxy a
//! call gets. The pool of actual HTTP clients lives with the process
//! that owns the connections and is keyed exactly by these decisions,
//! one reusable client per (account, timeout class).

use vstd::prelude::*;

verus! {

/// Seconds an interactive call may take.
pub const INTERACTIVE_TIMEOUT_SECS: u64 = 15;

/// Seconds a background warmup call may take.
pub const BACKGROUND_TIMEOUT_SECS: u64 = 60;

/// The two timeout classes of the pool.
#[derive(Clone, Copy, Debug, PartialEq, Eq, Structural)]
pub enum TimeoutClass {
    /// Short: live requests a caller is waiting on.
    Interactive,
    /// Long: background warmup traffic.
    Background,
}

/// How the client for a call must be built.
#[derive(Clone, Debug, PartialEq)]
pub struct ClientConfig {
    pub timeout_secs: u64,
    /// The upstream proxy to route through, if any.
    pub proxy_url: Option<String>,
}

/// The timeout a class allows.
pub open spec fn timeout_of(class: TimeoutClass) -> u64 {
    match class {
        TimeoutClass::Interactive => INTERACTIVE_TIMEOUT_SECS,
        TimeoutClass::Background => BACKGROUND_TIMEOUT_SECS,
    }
}

/// Decide a call's client configuration. A loopback call — the internal
/// warmup endpoint — always bypasses the upstream proxy, so localhost
/// traffic is never tunneled; any other call routes through the
/// configured upstream proxy where one is set.
pub fn client_config(class: TimeoutClass, upstream_proxy: Option<String>, loopback: bool) -> (r:
    ClientConfig)
    ensures
        r.timeout_secs == timeout_of(class),
        loopback ==> r.proxy_url is None,
        !loopback ==> r.proxy_url == upstream_proxy,
{
    let timeout_secs = match class {
        TimeoutClass::Interactive => INTERACTIVE_TIMEOUT_SECS,
        TimeoutClass::Background => BACKGROUND_TIMEOUT_SECS,
    };
    let proxy_url = if loopback {
        None
    } else {
        upstream_proxy
    };
    ClientConfig { timeout_secs, proxy_url }
}

} // verus!
