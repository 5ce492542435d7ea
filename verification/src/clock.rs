use vstd::prelude::*;

verus! {

/// Whole seconds since the Unix epoch by the system clock: `SystemTime::now()` measured with
/// `duration_since(UNIX_EPOCH)`. When the clock reads earlier than the epoch, the error's text.
/// Nothing is claimed of the value: it is the time.
#[verifier::external_body]
pub fn unix_time_secs() -> (r: Result<u64, String>) {
    std::time::SystemTime::now()
        .duration_since(std::time::UNIX_EPOCH)
        .map(|d| d.as_secs())
        .map_err(|e| e.to_string())
}

} // verus!
