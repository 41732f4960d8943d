//! When a session ends, and when it is driven next.

use crate::error::{ErrorKind, KcpError};
use crate::session::{deadline_spec, drives, idle_ms, lifetime_spec, KcpSession, Lifetime};
use crate::skcp::updates;
use crate::utils::duration_nanos;
use std::time::Duration;
use vstd::prelude::*;

verus! {

/// Nothing is queued or in flight.
pub open spec fn all_is_sent(session: KcpSession) -> bool {
    session@.socket.link.in_flight == 0 && session@.socket.link.queue.len() == 0
}

/// The time since the last activity, in milliseconds, is more than `times` times the limit
/// of a session that has one.
pub open spec fn idle_for_more_than(session: KcpSession, now_ms: u64, times: int) -> bool {
    &&& session@.expire_ms > 0
    &&& now_ms - session@.socket.last_update_ms > times * session@.expire_ms
}

/// A session ends with its next turn exactly if it is closed and has sent everything, if it
/// has been idle for more than twice its limit, or if its output fails; in the first two
/// cases KCP is not told the time any more.
pub proof fn law_when_a_session_ends(
    before: KcpSession,
    now_ms: u64,
    after: KcpSession,
    next: Option<u64>,
)
    requires
        drives(before, now_ms, after, next),
    ensures
        before@.closed && all_is_sent(before) || idle_for_more_than(before, now_ms, 2) ==> next
            is None && after == before,
        !(before@.closed && all_is_sent(before)) && !idle_for_more_than(before, now_ms, 2)
            ==> exists|updated: Result<Duration, KcpError>| #[trigger]
            updates(before.connection(), now_ms, after.connection(), updated) && (next is None
                <==> updated is Err),
{
    if !(before@.closed && all_is_sent(before)) && !idle_for_more_than(before, now_ms, 2) {
        let updated = choose|updated: Result<Duration, KcpError>| #[trigger]
            updates(before.connection(), now_ms, after.connection(), updated) && next
                == deadline_spec(now_ms, updated);
        assert(updates(before.connection(), now_ms, after.connection(), updated));
    }
}

/// A session that goes on is closed exactly if it was, or if it has been idle for more than
/// its limit. Its limit never changes.
pub proof fn law_when_a_session_is_closed(
    before: KcpSession,
    now_ms: u64,
    after: KcpSession,
    next: Option<u64>,
)
    requires
        drives(before, now_ms, after, next),
    ensures
        next is Some ==> after@.closed == (before@.closed || idle_for_more_than(
            before,
            now_ms,
            1,
        )),
        before@.closed ==> after@.closed,
        after@.expire_ms == before@.expire_ms,
{
}

/// The next turn of a session is as many whole milliseconds ahead as the update asked for,
/// or at the last time there is.
pub proof fn law_next_turn_is_as_asked(
    before: KcpSession,
    now_ms: u64,
    after: KcpSession,
    next: u64,
)
    requires
        drives(before, now_ms, after, Some(next)),
    ensures
        exists|delay: Duration| #[trigger]
            updates(before.connection(), now_ms, after.connection(), Ok(delay)) && {
                let time = now_ms + duration_nanos(delay) / 1_000_000;
                next == if time <= u64::MAX {
                    time
                } else {
                    u64::MAX as int
                }
            },
{
    let updated = choose|updated: Result<Duration, KcpError>| #[trigger]
        updates(before.connection(), now_ms, after.connection(), updated) && Some(next)
            == deadline_spec(now_ms, updated);
    let delay = updated->Ok_0;
    assert(updates(before.connection(), now_ms, after.connection(), Ok(delay)));
    assert(duration_nanos(delay) / 1_000_000 <= before.connection()@.update_interval_ms);
}

/// How the time of the next update follows from the last: as many whole milliseconds ahead
/// as it asked for; none after a broken pipe, and ten ahead after any other failure.
pub proof fn law_next_update(now_ms: u64, updated: Result<Duration, KcpError>)
    ensures
        ({
            let next = deadline_spec(now_ms, updated);
            match updated {
                Ok(delay) => {
                    let time = now_ms + duration_nanos(delay) / 1_000_000;
                    &&& next is Some
                    &&& time <= u64::MAX ==> next->0 == time
                    &&& next->0 >= now_ms
                },
                Err(err) => {
                    &&& next is None <==> err is IoError && err.spec_kind()
                        == ErrorKind::BrokenPipe
                    &&& next is Some && now_ms + 10 <= u64::MAX ==> next->0 == now_ms + 10
                    &&& next is Some ==> next->0 >= now_ms
                },
            }
        }),
{
}

/// A session is alive while it has no limit or has not been idle for longer than that, idle
/// up to twice the limit, and then over. A clock that went back counts as no time.
pub proof fn law_ages_of_a_session(expire_ms: u64, now_ms: u64, last_update_ms: u64)
    ensures
        ({
            let life = lifetime_spec(expire_ms, idle_ms(now_ms, last_update_ms));
            let idle = now_ms - last_update_ms;
            &&& life == Lifetime::Alive <==> expire_ms == 0 || idle <= expire_ms
            &&& life == Lifetime::Idle <==> expire_ms > 0 && expire_ms < idle <= 2 * expire_ms
            &&& life == Lifetime::Over <==> expire_ms > 0 && idle > 2 * expire_ms
        }),
{
}

} // verus!
