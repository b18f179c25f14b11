//! The wall clock, and the conversion of a configured TTL to the
//! millisecond timestamps the index stores. The pipeline itself takes the
//! current time as an argument everywhere, so it can be driven by a fake
//! clock; these helpers supply the real one.

use vstd::prelude::*;

verus! {

/// Relies on `std::time::SystemTime::now`, read as whole milliseconds
/// since the Unix epoch; a clock set before the epoch reads as zero. The
/// result depends on the machine's clock, so nothing is promised of it.
#[verifier::external_body]
fn clock_now_millis() -> u64 {
    match std::time::SystemTime::now().duration_since(std::time::UNIX_EPOCH) {
        Ok(elapsed) => elapsed.as_millis() as u64,
        Err(_) => 0,
    }
}

/// The time now, as milliseconds since the Unix epoch.
pub fn current_time_millis() -> u64 {
    clock_now_millis()
}

/// Converts a TTL configured in hours to milliseconds; fails when the
/// product does not fit the timestamp range.
pub fn ttl_hours_to_millis(hours: u64) -> (r: Option<u64>)
    ensures
        match r {
            Some(ms) => ms == hours * 3600000,
            None => hours * 3600000 > u64::MAX,
        },
{
    hours.checked_mul(3600000)
}

} // verus!
