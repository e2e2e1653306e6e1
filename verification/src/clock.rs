//! The current instant.

use vstd::prelude::*;

verus! {

/// No instant that the clock reports is this many seconds away from the
/// Unix epoch, in either direction.
pub const CLOCK_LIMIT: i64 = 0x1_0000_0000_0000;

/// Whether an instant is one that the clock can report.
pub open spec fn is_clock_reading(now: int) -> bool {
    -CLOCK_LIMIT < now < CLOCK_LIMIT
}

/// Reads the system clock and has `chrono` convert the reading, through
/// its `From<SystemTime>` for `DateTime<Utc>`, to the seconds since the
/// Unix epoch as `DateTime::timestamp` counts them; an instant before the
/// epoch gives a negative count. The instant is whatever the system clock
/// says. `chrono` only represents instants whose count of days fits 32
/// bits, which keeps the seconds within [`CLOCK_LIMIT`] of the epoch.
#[verifier::external_body]
pub(crate) fn unix_now() -> (now: i64)
    ensures
        is_clock_reading(now as int),
{
    chrono::DateTime::<chrono::Utc>::from(std::time::SystemTime::now()).timestamp()
}

} // verus!
