use vstd::prelude::*;
use std::time::{SystemTime, UNIX_EPOCH};

verus! {

/// Milliseconds since the Unix epoch by the system clock
/// (`SystemTime::now`), or `None` when the clock reads earlier than the
/// epoch. Nothing is claimed of the value: it is the time of the call.
#[verifier::external_body]
pub fn current_unix_timestamp_ms() -> (r: Option<u64>) {
    match SystemTime::now().duration_since(UNIX_EPOCH) {
        Ok(elapsed) => Some(elapsed.as_millis() as u64),
        Err(_) => None,
    }
}

} // verus!
