//! Points in time, as the mount reports them.
use std::time::{Duration, SystemTime, UNIX_EPOCH};
use vstd::prelude::*;

verus! {

/// [`std::time::SystemTime`], carried through unread.
#[verifier::external_type_specification]
#[verifier::external_body]
pub struct ExSystemTime(std::time::SystemTime);

/// The last second that [`unix_time`] is asked for: no calendar year of sixteen bits, even with
/// its other fields out of range, lies after it.
pub const LAST_SECOND: u64 = 4_000_000_000_000;

/// The instant `secs` seconds after the Unix epoch.
pub uninterp spec fn unix_time(secs: int) -> SystemTime;

/// `UNIX_EPOCH` plus a whole number of seconds.
///
/// Trusted: adding a [`Duration`] to [`UNIX_EPOCH`] depends on the duration alone. The standard
/// library panics where the sum cannot be represented; the bound keeps far away from that.
#[verifier::external_body]
fn epoch_plus(secs: u64) -> (time: SystemTime)
    requires
        secs <= LAST_SECOND,
    ensures
        time == unix_time(secs as int),
{
    UNIX_EPOCH + Duration::from_secs(secs)
}

/// The instant `secs` seconds after the Unix epoch.
pub fn at_unix_second(secs: u64) -> (time: SystemTime)
    requires
        secs <= LAST_SECOND,
    ensures
        time == unix_time(secs as int),
{
    epoch_plus(secs)
}

/// The current time, through [`SystemTime::now`].
///
/// Trusted with nothing: no two calls need agree.
#[verifier::external_body]
pub(crate) fn now() -> (time: SystemTime)
{
    SystemTime::now()
}

} // verus!
