//! Access to the wall clock, for the creation and registration timestamps.

use vstd::prelude::*;

verus! {

/// Relies on std::time::SystemTime::now for the current wall-clock instant,
/// reduced to whole seconds since the Unix epoch. The value depends on the
/// machine's clock, so nothing is promised of it.
#[verifier::external_body]
pub(crate) fn now_secs() -> u64 {
    match std::time::SystemTime::now().duration_since(std::time::UNIX_EPOCH) {
        Ok(d) => d.as_secs(),
        Err(_) => 0,
    }
}

} // verus!
