//! The wall clock, as far as a capture file needs it.

use vstd::prelude::*;
use std::time::{Duration, SystemTime, SystemTimeError};

verus! {

/// `SystemTime` of std: a reading of the clock, carried through without a
/// look inside.
#[verifier::external_type_specification]
#[verifier::external_body]
pub struct ExSystemTime(SystemTime);

/// `SystemTimeError` of std: what `duration_since` gives where the clock
/// stands before the earlier time.
#[verifier::external_type_specification]
#[verifier::external_body]
pub struct ExSystemTimeError(SystemTimeError);

/// `SystemTime::now` of std: the reading depends on the clock, so nothing
/// is claimed of it.
pub assume_specification[ SystemTime::now ]() -> (now: SystemTime);

/// `SystemTime::duration_since` of std: whether the clock stands before
/// `earlier`, and by how much it stands after, is the clock's affair.
pub assume_specification[ SystemTime::duration_since ](
    time: &SystemTime,
    earlier: SystemTime,
) -> (elapsed: Result<Duration, SystemTimeError>);

/// `Duration::as_secs` of std: the whole seconds of the duration.
pub assume_specification[ Duration::as_secs ](duration: &Duration) -> (secs: u64);

/// `Duration::subsec_micros` of std: the fraction of a second, in whole
/// microseconds. It is a fraction of one second, so it is less than one
/// million.
pub assume_specification[ Duration::subsec_micros ](duration: &Duration) -> (micros: u32)
    ensures
        micros < 1_000_000,
;

/// The constant `UNIX_EPOCH` of std.
#[verifier::external_body]
fn unix_epoch() -> (epoch: SystemTime) {
    std::time::UNIX_EPOCH
}

/// Seconds and microseconds since the Unix epoch, or `None` where the
/// clock stands before it. What the clock shows is its own affair; the
/// microseconds are the fraction of the running second.
pub(crate) fn unix_time() -> (stamp: Option<(u64, u32)>)
    ensures
        stamp matches Some((_, micros)) ==> micros < 1_000_000,
{
    let now: SystemTime = SystemTime::now();
    match now.duration_since(unix_epoch()) {
        Ok(elapsed) => Some((elapsed.as_secs(), elapsed.subsec_micros())),
        Err(_) => None,
    }
}

} // verus!
