//! The wall clock, read in whole seconds since the Unix epoch.
use vstd::prelude::*;

verus! {

/// `SystemTime::now().duration_since(UNIX_EPOCH)` in whole seconds, or `None`
/// when the clock reads a time before the epoch.  The reading depends on the
/// machine's clock, so nothing is stated of it.
#[verifier::external_body]
pub(crate) fn unix_time_secs() -> (r: Option<u64>) {
    std::time::SystemTime::now().duration_since(std::time::UNIX_EPOCH).ok().map(|d| d.as_secs())
}

} // verus!
