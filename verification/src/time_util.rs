//! The clock.

use vstd::prelude::*;

verus! {

/// `SystemTime::now` as whole seconds since the Unix epoch; zero where the
/// clock stands before the epoch. Nothing is claimed of the value.
#[verifier::external_body]
pub fn now_epoch_seconds() -> (seconds: u64) {
    std::time::SystemTime::now()
        .duration_since(std::time::SystemTime::UNIX_EPOCH)
        .map(|d| d.as_secs())
        .unwrap_or(0)
}

} // verus!
