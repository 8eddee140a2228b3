//! Small host helpers.

use vstd::prelude::*;

verus! {

/// Relies on std's `SystemTime::now` and `duration_since`: the wall clock,
/// read as milliseconds since the Unix epoch, or 0 when the clock reads
/// earlier than the epoch. The value depends on the host's clock, so nothing
/// is promised of it.
#[verifier::external_body]
fn system_millis() -> (r: u128) {
    match std::time::SystemTime::now().duration_since(std::time::UNIX_EPOCH) {
        Ok(d) => d.as_millis(),
        Err(_) => 0,
    }
}

/// The current wall-clock time in milliseconds since the Unix epoch, used as
/// the finders' staleness marker. The value depends on the host's clock, so
/// nothing can be promised of it.
pub fn now() -> u128 {
    system_millis()
}

} // verus!
