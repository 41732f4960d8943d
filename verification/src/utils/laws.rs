//! Times in milliseconds.

use crate::utils::{duration_nanos, epoch_millis_spec, epoch_nanos, millis_u64};
use std::time::Duration;
use std::time::SystemTime;
use vstd::prelude::*;

verus! {

/// A duration counts as its whole milliseconds, if 64 bits hold them.
pub proof fn law_whole_milliseconds(d: Duration)
    ensures
        duration_nanos(d) < 0x1_0000_0000_0000_0000 * 1_000_000 ==> millis_u64(d) * 1_000_000
            <= duration_nanos(d) < (millis_u64(d) + 1) * 1_000_000,
{
}

/// A point of the wall clock counts as the whole milliseconds since the epoch, if 64 bits
/// hold them; a point before the epoch as none.
pub proof fn law_milliseconds_since_the_epoch(t: SystemTime)
    ensures
        epoch_millis_spec(t) is None <==> epoch_nanos(t) < 0,
        0 <= epoch_nanos(t) < 0x1_0000_0000_0000_0000 * 1_000_000 ==> epoch_millis_spec(t)->0
            * 1_000_000 <= epoch_nanos(t) < (epoch_millis_spec(t)->0 + 1) * 1_000_000,
{
}

} // verus!
