//! The one place the library reads the wall clock.

use vstd::prelude::*;

verus! {

/// Relies on std::time::SystemTime::now, read as seconds since the Unix
/// epoch; a clock that reads before the epoch counts as zero. Nothing is
/// assumed of the value: callers state what holds of every reading.
#[verifier::external_body]
pub(crate) fn now_unix_seconds() -> u64 {
    std::time::SystemTime::now().duration_since(std::time::UNIX_EPOCH).map(
        |d| d.as_secs(),
    ).unwrap_or(0)
}

} // verus!
