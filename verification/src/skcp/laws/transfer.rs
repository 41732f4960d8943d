//! What is sent, what is read, and when KCP is told the time.

use crate::error::{ErrorKind, KcpError};
use crate::link::{
    head_count, head_message, kcp_check, kcp_flush, kcp_quiet, kcp_send_all, kcp_update, peek,
    refused,
};
use crate::skcp::laws::waking::has_room;
use crate::skcp::{
    enqueues, flushes_if, receives, sends, transmits, tries_recv, updates, writes_out, KcpSocket,
    Poll, SocketState,
};
use crate::utils::duration_nanos;
use std::time::Duration;
use vstd::prelude::*;

verus! {

/// A writer waits exactly if the connection is open, has sent before, and has no room or
/// no number; a closed connection answers at once with a broken pipe. The first message
/// never waits.
pub proof fn law_writer_waits_only_for_room(
    before: SocketState,
    buf: Seq<u8>,
    now_ms: u64,
    after: SocketState,
    res: Poll<Result<usize, KcpError>>,
)
    requires
        sends(before, buf, now_ms, after, res),
    ensures
        res is Pending <==> !before.closed && before.sent_first && !has_room(before),
        res is Pending ==> after == (SocketState { pending_sender: true, ..before }),
        before.closed ==> after == before && res is Ready && res->Ready_0 is Err
            && res->Ready_0->Err_0.spec_kind() == ErrorKind::BrokenPipe,
        res is Ready && !before.closed ==> after.sent_first,
{
}

/// How much is sent at a time: all of it, up to 127 fragments, in stream mode 128; and up
/// to one fragment for a first message without a conversation number.
pub proof fn law_how_much_is_sent(
    before: SocketState,
    buf: Seq<u8>,
    now_ms: u64,
    after: SocketState,
    n: usize,
)
    requires
        sends(before, buf, now_ms, after, Poll::Ready(Ok(n))),
    ensures
        ({
            let fragments: int = if !before.sent_first && before.link.waiting_conv {
                1
            } else if before.link.stream {
                128
            } else {
                127
            };
            let most = fragments * before.link.mss;
            &&& buf.len() <= most ==> n == buf.len()
            &&& buf.len() > most ==> n == most
        }),
        after.last_update_ms == now_ms,
{
    let mss = before.link.mss as int;
    assert(1 * mss == mss);
    assert(128 * mss == 127 * mss + mss);
}

/// What is handed to KCP is the front of the buffer, as much as is reported as sent. It is
/// written out if that fills a window and, once more, if every message is to be written
/// out; else nothing is written.
pub proof fn law_message_is_written_out_when_due(
    before: KcpSocket,
    buf: Seq<u8>,
    now_ms: u64,
    after: KcpSocket,
    n: usize,
)
    requires
        transmits(before, buf, now_ms, after, Poll::Ready(Ok(n))),
    ensures
        n <= buf.len(),
        ({
            let sent = buf.take(n as int);
            let queued = kcp_send_all(before.machine(), sent);
            let state = before@.link.send_all(sent);
            let under_way = state.in_flight + state.queue.len();
            let full = under_way >= state.snd_wnd || under_way >= state.rmt_wnd;
            &&& !full && !before@.flush_write ==> after.machine() == queued
            &&& full != before@.flush_write ==> after.machine() == kcp_flush(queued)
            &&& full && before@.flush_write ==> after.machine() == kcp_flush(kcp_flush(queued))
            &&& full || before@.flush_write ==> kcp_quiet(after.machine())
        }),
{
    let data = before@.sendable(buf);
    assert(data =~= buf.take(n as int));
    let queued = choose|queued: KcpSocket| #[trigger]
        enqueues(before, buf, queued) && writes_out(queued, now_ms, after, None);
    let (room, first) = choose|room: KcpSocket, first: Option<KcpError>| #[trigger]
        flushes_if(queued@.link.windows_full(), queued, room, first) && if first is None {
            exists|timed: KcpSocket|
                {
                    &&& timed@ == SocketState { last_update_ms: now_ms, ..room@ }
                    &&& timed.machine() == room.machine()
                    &&& #[trigger] flushes_if(queued@.flush_write, timed, after, None)
                }
        } else {
            after == room && first is None
        };
    assert(first is None);
    let timed = choose|timed: KcpSocket|
        {
            &&& timed@ == SocketState { last_update_ms: now_ms, ..room@ }
            &&& timed.machine() == room.machine()
            &&& #[trigger] flushes_if(queued@.flush_write, timed, after, None)
        };
    assert(timed.machine() == room.machine());
}

/// Sending fails of an open connection only where something had to be written out.
pub proof fn law_sending_fails_only_at_the_output(
    before: SocketState,
    buf: Seq<u8>,
    now_ms: u64,
    after: SocketState,
    err: KcpError,
)
    requires
        sends(before, buf, now_ms, after, Poll::Ready(Err(err))),
        !before.closed,
    ensures
        err.spec_kind() == ErrorKind::BrokenPipe,
        ({
            let state = before.link.send_all(before.sendable(buf));
            let under_way = state.in_flight + state.queue.len();
            before.flush_write || under_way >= state.snd_wnd || under_way >= state.rmt_wnd
        }),
{
}

/// A reader of an open connection is given the first message if that is complete, fits and
/// has bytes, or messages without bytes are delivered; the rest of the buffer is left
/// alone, and the message is gone. If it does not fit, that is an error and nothing
/// changes. Else the reader waits, and a message without bytes is gone. A closed connection
/// is at its end.
pub proof fn law_reader_is_given_the_first_message(
    before: SocketState,
    buf: Seq<u8>,
    now_ms: u64,
    after: SocketState,
    filled: Seq<u8>,
    res: Poll<Result<usize, KcpError>>,
)
    requires
        receives(before, buf, now_ms, after, filled, res),
    ensures
        before.closed ==> after == before && filled == buf && res == Poll::<
            Result<usize, KcpError>,
        >::Ready(Ok(0)),
        !before.closed ==> match peek(before.link.received) {
            Ok(size) => {
                let message = head_message(before.link.received);
                let delivered = size > 0 || before.allow_recv_empty_packet;
                &&& size > buf.len() ==> after == before && filled == buf && res == Poll::<
                    Result<usize, KcpError>,
                >::Ready(Err(KcpError::UserBufTooSmall))
                &&& size <= buf.len() ==> {
                    &&& filled.take(size as int) == message
                    &&& filled.skip(size as int) == buf.skip(size as int)
                    &&& before.link.received.skip(
                        head_count(before.link.received) as int,
                    ).is_prefix_of(after.link.received)
                }
                &&& size <= buf.len() && delivered ==> res is Ready && res->Ready_0 is Ok
                    && res->Ready_0->Ok_0 == size && after.last_update_ms == now_ms
                    && after.pending_receiver == before.pending_receiver
                &&& size <= buf.len() && !delivered ==> res is Pending && after.pending_receiver
                    && after.last_update_ms == before.last_update_ms
            },
            Err(_) => res is Pending && filled == buf && after == (SocketState {
                pending_receiver: true,
                ..before
            }),
        },
{
    if !before.closed && peek(before.link.received) is Ok {
        let size = peek(before.link.received)->Ok_0 as int;
        if size <= buf.len() {
            assert(filled.take(size) =~= head_message(before.link.received));
            assert(filled.skip(size) =~= buf.skip(size));
        }
    }
}

/// A message that did not fit is there for a reader that comes back with a buffer that is
/// large enough.
pub proof fn law_message_that_did_not_fit_is_kept(
    before: SocketState,
    small: Seq<u8>,
    now_ms: u64,
    between: SocketState,
    left: Seq<u8>,
    large: Seq<u8>,
    later_ms: u64,
    after: SocketState,
    filled: Seq<u8>,
    res: Poll<Result<usize, KcpError>>,
)
    requires
        !before.closed,
        receives(
            before,
            small,
            now_ms,
            between,
            left,
            Poll::Ready(Err(KcpError::UserBufTooSmall)),
        ),
        receives(between, large, later_ms, after, filled, res),
        large.len() >= head_message(before.link.received).len(),
    ensures
        head_message(before.link.received).len() > small.len(),
        res is Ready && res->Ready_0 is Ok,
        filled.take(res->Ready_0->Ok_0 as int) == head_message(before.link.received),
{
    let message = head_message(before.link.received);
    assert(filled.take(message.len() as int) =~= message);
}

/// Asking for the first message without waiting gives what a reader would be given, and
/// says why if there is none.
pub proof fn law_asking_without_waiting(
    before: SocketState,
    buf: Seq<u8>,
    after: SocketState,
    filled: Seq<u8>,
    res: Result<usize, KcpError>,
)
    requires
        tries_recv(before, buf, after, filled, res),
    ensures
        before.closed ==> after == before && filled == buf && res == Ok::<usize, KcpError>(0),
        !before.closed ==> match peek(before.link.received) {
            Ok(size) => if size <= buf.len() {
                &&& res is Ok && res->Ok_0 == size
                &&& filled.take(size as int) == head_message(before.link.received)
                &&& filled.skip(size as int) == buf.skip(size as int)
                &&& before.link.received.skip(
                    head_count(before.link.received) as int,
                ).is_prefix_of(after.link.received)
            } else {
                after == before && filled == buf && res == Err::<usize, KcpError>(
                    KcpError::UserBufTooSmall,
                )
            },
            Err(err) => after == before && filled == buf && res == Err::<usize, KcpError>(err),
        },
        after == (SocketState { link: after.link, ..before }),
{
    if !before.closed && peek(before.link.received) is Ok {
        let size = peek(before.link.received)->Ok_0 as int;
        if size <= buf.len() {
            assert(filled.take(size) =~= head_message(before.link.received));
            assert(filled.skip(size) =~= buf.skip(size));
        }
    }
}

/// KCP is told the low 32 bits of the time. While nothing is queued or in flight, the next
/// time is after the update interval; else it is when KCP asks for it.
pub proof fn law_update_tells_the_time(
    before: KcpSocket,
    now_ms: u64,
    after: KcpSocket,
    delay: Duration,
)
    requires
        updates(before, now_ms, after, Ok(delay)),
    ensures
        ({
            let time = (now_ms % 0x1_0000_0000) as u32;
            let under_way = after@.link.in_flight + after@.link.queue.len();
            &&& after.machine() == kcp_update(before.machine(), time)
            &&& under_way == 0 ==> duration_nanos(delay) == before@.update_interval_ms
                * 1_000_000
            &&& under_way > 0 ==> duration_nanos(delay) == kcp_check(after.machine(), time)
                * 1_000_000
            &&& duration_nanos(delay) <= before@.update_interval_ms * 1_000_000
        }),
{
}

/// Telling KCP the time fails only if KCP wanted to be told, had something to write, and
/// nobody reads the output.
pub proof fn law_update_fails_only_at_the_output(
    before: KcpSocket,
    now_ms: u64,
    after: KcpSocket,
    err: KcpError,
)
    requires
        updates(before, now_ms, after, Err(err)),
    ensures
        err.spec_kind() == ErrorKind::BrokenPipe,
        refused(before.machine(), err),
        kcp_check(before.machine(), (now_ms % 0x1_0000_0000) as u32) == 0,
        !kcp_quiet(before.machine()) || before@.link.in_flight + before@.link.queue.len() > 0
            || before@.link.rmt_wnd == 0,
{
    before.lemma_link();
}

} // verus!
