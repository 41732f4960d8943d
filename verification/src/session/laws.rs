//! What holds of sessions.

use crate::config::KcpConfig;
use crate::error::{ErrorKind, KcpError};
use crate::fec::packet::marked_data;
use crate::link::{
    kcp_channel, kcp_check, kcp_quiet, nothing_to_write, refused, tried_to_post, Posted,
};
use crate::session::{
    adopts, deadline_spec, drives, idle_ms, inbound, receives_datagram, Inbound, KcpSession,
    SessionState, RETRY_MS,
};
use crate::skcp::laws::lemma_settled_number_stays;
use crate::skcp::laws::waking::waiting_ends_with_a_wake;
use crate::skcp::{low32, receives, sends, takes_in, updates, KcpSocket, Poll, SocketState};
use crate::utils::{duration_millis, millis_u64};
use std::time::Duration;
use vstd::prelude::*;

pub mod client;
pub mod lifetime;
pub mod operations;
pub mod table;

verus! {

/// A client follows the other side: after a datagram with segments of some conversation,
/// that is the client's conversation, unless the client still waits for a number and the
/// datagram brings none.
pub proof fn law_client_follows_the_server(
    before: KcpSocket,
    packet: Seq<u8>,
    now_ms: u64,
    after: KcpSocket,
    res: Option<Result<bool, KcpError>>,
    conv: u32,
)
    requires
        receives_datagram(before, packet, now_ms, after, res),
        inbound(packet) == Inbound::Segment(conv),
        before@.link.waiting_conv && marked_data(packet) ==> before@.fec is Some,
        before@.link.waiting_conv ==> before@.link.conv != conv,
    ensures
        after@.link.conv == conv,
        !after@.link.waiting_conv,
{
    let ready = choose|ready: KcpSocket| #[trigger]
        adopts(before, conv, ready) && takes_in(ready, packet, now_ms, after, res->0);
    lemma_settled_number_stays(ready, packet, now_ms, after, res->0, conv);
}

/// A closed session with nothing left to send ends.
pub proof fn law_closed_session_ends_when_all_is_sent(
    before: KcpSession,
    now_ms: u64,
    after: KcpSession,
    next: Option<u64>,
)
    requires
        drives(before, now_ms, after, next),
        before@.closed,
        before@.socket.link.wait_snd() == 0,
    ensures
        next is None,
{
}

/// A session that has something left to send, closed or not, and has not been idle for more
/// than twice its limit, goes on as long as somebody reads its output.
pub proof fn law_closed_session_sends_what_is_left(
    before: KcpSession,
    now_ms: u64,
    after: KcpSession,
    next: Option<u64>,
)
    requires
        drives(before, now_ms, after, next),
        before@.socket.link.wait_snd() > 0,
        before@.expire_ms == 0 || idle_ms(now_ms, before@.socket.last_update_ms) <= 2
            * before@.expire_ms,
        next is None,
    ensures
        exists|packet: Seq<u8>| #[trigger]
            tried_to_post(before.connection().channel(), packet, Posted::Closed),
{
    let updated = choose|updated: Result<Duration, KcpError>| #[trigger]
        updates(before.connection(), now_ms, after.connection(), updated) && next
            == deadline_spec(now_ms, updated);
    assert(refused(before.connection().machine(), updated->Err_0));
    let packet = choose|packet: Seq<u8>| #[trigger]
        tried_to_post(kcp_channel(before.connection().machine()), packet, Posted::Closed);
    assert(tried_to_post(before.connection().channel(), packet, Posted::Closed));
}

/// A session that is open, or has something left to send, and has not been idle for more
/// than twice its limit goes on if there is nothing that it could write, or if KCP does not
/// want to be told the time yet, whoever reads its output.
pub proof fn law_session_goes_on_without_output(
    before: KcpSession,
    now_ms: u64,
    after: KcpSession,
    next: Option<u64>,
)
    requires
        drives(before, now_ms, after, next),
        !before@.closed || before@.socket.link.wait_snd() > 0,
        before@.expire_ms == 0 || idle_ms(now_ms, before@.socket.last_update_ms) <= 2
            * before@.expire_ms,
        ({
            ||| nothing_to_write(before.connection().machine())
            ||| kcp_check(before.connection().machine(), low32(now_ms)) > 0
        }),
    ensures
        next is Some,
{
}

/// A new session has nothing to write.
pub proof fn law_new_session_has_nothing_to_write(
    config: &KcpConfig,
    conv: u32,
    stream: bool,
    now_ms: u64,
    socket: KcpSocket,
)
    requires
        socket@ == KcpSocket::start(config, conv, stream, now_ms),
        kcp_quiet(socket.machine()),
    ensures
        nothing_to_write(socket.machine()),
{
    socket.lemma_link();
}

/// When a session is over, nobody waits for it any more, and whoever did is woken.
pub proof fn law_ended_session_wakes_everyone(
    before: KcpSession,
    now_ms: u64,
    driven: KcpSession,
)
    requires
        drives(before, now_ms, driven, None),
    ensures
        ({
            let after = driven@.finalized().socket;
            &&& after.closed
            &&& !after.pending_sender && !after.pending_receiver
            &&& before@.socket.pending_sender ==> after.wakes.sender
            &&& before@.socket.pending_receiver ==> after.wakes.receiver
        }),
{
    before.lemma_connection();
    driven.lemma_connection();
}

/// A session that can expire is closed once it has been idle for longer than its limit,
/// and over once it has been idle for longer than twice that.
pub proof fn law_idle_session_expires(
    before: KcpSession,
    now_ms: u64,
    after: KcpSession,
    next: Option<u64>,
)
    requires
        drives(before, now_ms, after, next),
        before@.expire_ms > 0,
        idle_ms(now_ms, before@.socket.last_update_ms) > before@.expire_ms,
    ensures
        next is None || after@.closed,
        idle_ms(now_ms, before@.socket.last_update_ms) > 2 * before@.expire_ms ==> next is None,
{
}

/// A session that cannot expire, or that has not been idle for longer than its limit, is
/// not closed for it.
pub proof fn law_active_session_stays_open(
    before: KcpSession,
    now_ms: u64,
    after: KcpSession,
    next: Option<u64>,
)
    requires
        drives(before, now_ms, after, next),
        before@.expire_ms == 0 || idle_ms(now_ms, before@.socket.last_update_ms)
            <= before@.expire_ms,
        !before@.closed,
    ensures
        !after@.closed,
{
}

/// The next time to drive a session is not in the past, and not later than its update
/// interval, or than the time after which a failed update is tried again.
pub proof fn law_next_time_is_near(
    before: KcpSession,
    now_ms: u64,
    after: KcpSession,
    next: u64,
)
    requires
        drives(before, now_ms, after, Some(next)),
    ensures
        now_ms <= next,
        next <= now_ms + before@.socket.update_interval_ms || next <= now_ms + RETRY_MS,
{
    let updated = choose|updated: Result<Duration, KcpError>| #[trigger]
        updates(before.connection(), now_ms, after.connection(), updated) && Some(next)
            == deadline_spec(now_ms, updated);
    if let Ok(delay) = updated {
        assert(duration_millis(delay) <= before@.socket.update_interval_ms);
        assert(millis_u64(delay) == duration_millis(delay));
    }
}

/// When a session has been shut down, nobody waits for it, and whoever did is woken.
pub proof fn law_shut_down_session_wakes_everyone(state: SessionState)
    ensures
        ({
            let after = state.finalized().socket;
            &&& after.closed
            &&& !after.pending_sender
            &&& !after.pending_receiver
            &&& state.socket.pending_sender ==> after.wakes.sender
            &&& state.socket.pending_receiver ==> after.wakes.receiver
        }),
{
}

/// A session that has been shut down answers every writer with a broken pipe and every
/// reader with the end.
pub proof fn law_shut_down_session_answers_at_once(
    state: SessionState,
    buf: Seq<u8>,
    now_ms: u64,
    after_send: SocketState,
    sent: Poll<Result<usize, KcpError>>,
    after_recv: SocketState,
    filled: Seq<u8>,
    received: Poll<Result<usize, KcpError>>,
)
    requires
        sends(state.finalized().socket, buf, now_ms, after_send, sent),
        receives(state.finalized().socket, buf, now_ms, after_recv, filled, received),
    ensures
        sent is Ready && sent->Ready_0 is Err,
        sent->Ready_0->Err_0.spec_kind() == ErrorKind::BrokenPipe,
        received == Poll::<Result<usize, KcpError>>::Ready(Ok(0)),
        after_send == state.finalized().socket,
        after_recv == state.finalized().socket,
{
}

/// Shutting a session down wakes exactly those who wait, and leaves everything else of its
/// connection as it is.
pub proof fn law_shut_down_changes_nothing_else(state: SessionState)
    ensures
        ({
            let before = state.socket;
            let after = state.finalized().socket;
            &&& waiting_ends_with_a_wake(before, after)
            &&& after == (SocketState {
                closed: true,
                pending_sender: false,
                pending_receiver: false,
                wakes: after.wakes,
                ..before
            })
            &&& state.finalized().closed
            &&& state.finalized().expire_ms == state.expire_ms
        }),
{
}

} // verus!
