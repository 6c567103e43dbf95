//! The wall clock.
use vstd::prelude::*;

verus! {

/// `SystemTime::now`, as milliseconds since the Unix epoch; zero if the clock
/// stands before it. Nothing is claimed of the value.
#[verifier::external_body]
pub(crate) fn current_timestamp_ms() -> (r: u128) {
    std::time::SystemTime::now()
        .duration_since(std::time::UNIX_EPOCH)
        .map(|duration| duration.as_millis())
        .unwrap_or(0)
}

} // verus!
