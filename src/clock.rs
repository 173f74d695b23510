//! The wall clock.
use vstd::prelude::*;

verus! {

/// Relies on std::time::SystemTime::now: the wall clock read as whole
/// milliseconds since the Unix epoch, 0 for a clock set before it. Nothing is
/// promised of the value, which depends on when the call is made.
#[verifier::external_body]
pub(crate) fn clock_millis() -> (r: u64) {
    match std::time::SystemTime::now().duration_since(std::time::UNIX_EPOCH) {
        Ok(elapsed) => elapsed.as_millis() as u64,
        Err(_) => 0,
    }
}

} // verus!
