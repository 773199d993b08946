//! The system clock.

use vstd::prelude::*;

verus! {

/// Milliseconds since the Unix epoch by the system clock (0 before it). Its
/// value depends on the time of the call and is left unstated.
#[verifier::external_body]
pub(crate) fn unix_time_ms() -> (ms: u128) {
    match std::time::SystemTime::now().duration_since(std::time::UNIX_EPOCH) {
        Ok(d) => d.as_millis(),
        Err(_) => 0,
    }
}

} // verus!
