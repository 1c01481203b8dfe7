//! Wall-clock reads, and a helper to place an instant relative to now.
//!
//! Time is the one environmental input of the token subsystem.  The two
//! timestamp functions are the only place it is read; everything that
//! reasons about expiry takes the current instant as an argument instead,
//! so that the expiry logic itself is verified for every possible clock
//! value.

use vstd::prelude::*;

verus! {

/// Current timestamp in milliseconds since the Unix epoch.
///
/// Relies on `std::time::SystemTime::now` and
/// `SystemTime::duration_since(UNIX_EPOCH)`: the number of milliseconds the
/// system clock stands after the epoch, or `0` should the clock stand
/// before it.  The result depends on the machine's clock, so nothing can be
/// promised of it.
#[verifier::external_body]
pub fn timestamp_u128() -> u128 {
    std::time::SystemTime::now()
        .duration_since(std::time::UNIX_EPOCH)
        .map(|d| d.as_millis())
        .unwrap_or(0)
}

/// Current timestamp in milliseconds since the Unix epoch, as `u64`.
pub fn timestamp_u64() -> u64 {
    #[verifier::truncate]
    (timestamp_u128() as u64)
}

/// A span of milliseconds that can be placed relative to the current instant.
#[derive(Clone, Copy, Debug, PartialEq, Eq, Structural)]
pub struct DurationMillis(pub u64);

/// Timestamp helper: turn a span into an absolute instant measured from now.
pub trait TimestampExt {
    /// The instant this span ahead of the current time, saturating at the
    /// largest representable timestamp.
    fn timestamp_from_now(&self) -> u64;
}

impl TimestampExt for DurationMillis {
    fn timestamp_from_now(&self) -> u64 {
        let now = timestamp_u64();
        if now > u64::MAX - self.0 {
            u64::MAX
        } else {
            now + self.0
        }
    }
}

} // verus!
