use vstd::prelude::*;

verus! {

/// Milliseconds from the Unix epoch to now, read with
/// `SystemTime::now().duration_since(UNIX_EPOCH)`; `None` when the clock is
/// before the epoch. The value depends on the clock, so nothing is claimed
/// of it.
#[verifier::external_body]
fn elapsed_since_epoch_ms() -> (r: Option<u128>) {
    std::time::SystemTime::now().duration_since(std::time::UNIX_EPOCH).ok().map(|d| d.as_millis())
}

/// The millisecond timestamp for a clock reading: the elapsed milliseconds
/// when they fit in `u64`, else 0; a clock before the epoch counts as 0.
pub fn timestamp_ms_from_elapsed(elapsed_ms: Option<u128>) -> (r: u64)
    ensures
        match elapsed_ms {
            Some(ms) => r == (if ms <= u64::MAX { ms as u64 } else { 0 }),
            None => r == 0,
        },
{
    match elapsed_ms {
        Some(ms) => if ms <= u64::MAX as u128 {
            ms as u64
        } else {
            0
        },
        None => 0,
    }
}

/// The local time in milliseconds since the Unix epoch, 0 when it does not
/// fit in `u64` or the clock is before the epoch.
/// The clock reading is taken as `timestamp_ms_from_elapsed` describes; the
/// reading itself is whatever the clock gives.
pub fn get_local_timestamp_ms() -> u64 {
    let e = elapsed_since_epoch_ms();
    timestamp_ms_from_elapsed(e)
}

} // verus!
