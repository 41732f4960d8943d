//! Clocks and durations.

use std::time::Duration;
use std::time::Instant;
use std::time::SystemTime;
use std::time::SystemTimeError;
use vstd::prelude::*;

pub mod laws;

verus! {

/// A point of the monotonic clock, carried through unread.
#[verifier::external_type_specification]
#[verifier::external_body]
pub struct ExInstant(Instant);

/// A point of the wall clock, carried through unread.
#[verifier::external_type_specification]
#[verifier::external_body]
pub struct ExSystemTime(SystemTime);

/// The error of a wall clock reading that lies before its reference point.
#[verifier::external_type_specification]
#[verifier::external_body]
pub struct ExSystemTimeError(SystemTimeError);

/// How many nanoseconds a duration lasts.
pub uninterp spec fn duration_nanos(d: Duration) -> nat;

/// How many nanoseconds after the Unix epoch a point of the wall clock lies;
/// negative before the epoch.
pub uninterp spec fn epoch_nanos(t: SystemTime) -> int;

/// How many whole milliseconds a duration lasts.
pub open spec fn duration_millis(d: Duration) -> nat {
    duration_nanos(d) / 1_000_000
}

/// `Duration::from_secs`: a duration of `secs` whole seconds.
pub assume_specification[ Duration::from_secs ](secs: u64) -> (d: Duration)
    ensures
        duration_nanos(d) == secs * 1_000_000_000,
;

/// `Duration::from_millis`: a duration of `millis` whole milliseconds.
pub assume_specification[ Duration::from_millis ](millis: u64) -> (d: Duration)
    ensures
        duration_nanos(d) == millis * 1_000_000,
;

/// `Duration::as_millis`: the whole milliseconds in a duration.
pub assume_specification[ Duration::as_millis ](d: &Duration) -> (millis: u128)
    ensures
        millis == duration_millis(*d),
;

/// `Duration::as_nanos`: the nanoseconds in a duration.
pub assume_specification[ Duration::as_nanos ](d: &Duration) -> (nanos: u128)
    ensures
        nanos == duration_nanos(*d),
;

/// `Instant::now`: a reading of the monotonic clock. Nothing is claimed of it.
pub assume_specification[ Instant::now ]() -> Instant;

/// `d` was read as the time since `since`. What is read depends on when: this tells that
/// it was read, and nothing of how long it is.
pub uninterp spec fn elapsed_reading(since: Instant, d: Duration) -> bool;

/// `Instant::elapsed`: the time since `instant`. It depends on when it is asked, and
/// nothing is claimed of it but that it was read.
pub assume_specification[ Instant::elapsed ](instant: &Instant) -> (d: Duration)
    ensures
        elapsed_reading(*instant, d),
;

/// `t` was read from the wall clock. What is read depends on when: this tells that it was
/// read, and nothing of when.
pub uninterp spec fn wall_reading(t: SystemTime) -> bool;

/// `SystemTime::now`: a reading of the wall clock. It depends on when it is asked, and
/// nothing is claimed of it but that it was read.
pub assume_specification[ SystemTime::now ]() -> (t: SystemTime)
    ensures
        wall_reading(t),
;

/// `SystemTime::duration_since` from the Unix epoch: the time since the epoch, or
/// an error if and only if `t` lies before it.
#[verifier::external_body]
fn since_epoch(t: SystemTime) -> (res: Result<Duration, SystemTimeError>)
    ensures
        res is Ok <==> epoch_nanos(t) >= 0,
        res is Ok ==> duration_nanos(res->Ok_0) == epoch_nanos(t),
{
    t.duration_since(std::time::UNIX_EPOCH)
}

/// The whole milliseconds of a duration, as far as 64 bits hold them.
pub open spec fn millis_u64(d: Duration) -> u64 {
    (duration_millis(d) % 0x1_0000_0000_0000_0000) as u64
}

/// The whole milliseconds of a duration; the high bits of a number that needs more
/// than 64 are dropped.
pub fn as_millis_u64(d: &Duration) -> (millis: u64)
    ensures
        millis == millis_u64(*d),
{
    let millis: u128 = d.as_millis();
    (millis % 0x1_0000_0000_0000_0000) as u64
}

/// The milliseconds between the Unix epoch and `t`; `None` before the epoch.
pub open spec fn epoch_millis_spec(t: SystemTime) -> Option<u64> {
    if epoch_nanos(t) >= 0 {
        Some((epoch_nanos(t) / 1_000_000 % 0x1_0000_0000_0000_0000) as u64)
    } else {
        None
    }
}

/// The milliseconds between the Unix epoch and `t`; `None` before the epoch.
pub fn epoch_millis(t: SystemTime) -> (millis: Option<u64>)
    ensures
        millis == epoch_millis_spec(t),
{
    match since_epoch(t) {
        Ok(d) => Some(as_millis_u64(&d)),
        Err(_) => None,
    }
}

/// The milliseconds since the Unix epoch; `None` if the wall clock is set to a time
/// before the epoch.
pub fn now_millis_u64() -> (millis: Option<u64>)
    ensures
        exists|now: SystemTime| #[trigger] wall_reading(now) && millis == epoch_millis_spec(now),
{
    let now = SystemTime::now();
    epoch_millis(now)
}

} // verus!
