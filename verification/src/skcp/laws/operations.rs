//! What holds of a connection's operations.

use crate::config::KcpConfig;
use crate::error::{ErrorKind, KcpError};
use crate::link::{
    head_message, kcp_check, kcp_flush, kcp_quiet, kcp_recv, kcp_send_all, kcp_update, peek,
    UdpOutput,
};
use crate::skcp::laws::losses::{
    carried, completes, handed_over, is_marked, law_completed_block_reaches_kcp,
    law_plain_datagram_reaches_kcp, lost_payloads_of,
};
use crate::skcp::laws::transfer::{
    law_how_much_is_sent, law_message_is_written_out_when_due,
    law_reader_is_given_the_first_message, law_update_tells_the_time,
    law_writer_waits_only_for_room,
};
use crate::skcp::laws::waking::{
    handed, has_message, has_room, law_datagram_wakes_who_can_go_on, law_update_wakes_the_writer,
    somebody_was_woken, taken_or_left, waiting_ends_with_a_wake,
};
use crate::skcp::{
    accepted, may_send, next_delay_ms, send_len, KcpSocket, Poll, SocketState, Wakes,
};
use crate::utils::duration_nanos;
use std::time::Duration;
use vstd::prelude::*;

verus! {

/// Taking a datagram wakes those who can go on because of it, and nobody else.
pub proof fn law_input_wakes_who_can_go_on(
    socket: &mut KcpSocket,
    packet: &[u8],
    now_ms: u64,
    res: Result<bool, KcpError>,
)
    requires
        call_ensures(KcpSocket::input, (socket, packet, now_ms), res),
    ensures
        ({
            let before = old(socket)@;
            let after = final(socket)@;
            &&& waiting_ends_with_a_wake(before, after)
            &&& res is Ok ==> res->Ok_0 == somebody_was_woken(before, after)
            &&& res is Ok && taken_or_left(
                old(socket).machine(),
                handed(*old(socket), packet@),
                before.flush_ack_input,
            ) ==> {
                &&& before.pending_receiver && !has_message(before) && has_message(after)
                    ==> after.wakes.receiver && !after.pending_receiver
                &&& before.pending_sender && !has_room(before) && has_room(after)
                    ==> after.wakes.sender && !after.pending_sender
            }
        }),
{
    law_datagram_wakes_who_can_go_on(*old(socket), packet@, now_ms, *final(socket), res);
}

/// Taking a datagram hands it to KCP as it is if it is not marked, or if there is no
/// decoder.
pub proof fn law_input_hands_plain_datagrams_on(
    socket: &mut KcpSocket,
    packet: &[u8],
    now_ms: u64,
    res: Result<bool, KcpError>,
)
    requires
        call_ensures(KcpSocket::input, (socket, packet, now_ms), res),
        old(socket)@.fec is None || !is_marked(packet@),
    ensures
        handed_over(
            old(socket).machine(),
            seq![packet@],
            old(socket)@.flush_ack_input,
            *final(socket),
            res,
        ),
{
    law_plain_datagram_reaches_kcp(*old(socket), packet@, now_ms, *final(socket), res);
}

/// Taking the datagram that completes a block hands KCP what it carries, and the payloads
/// of all data packets of the block that did not come in.
pub proof fn law_input_makes_losses_good(
    socket: &mut KcpSocket,
    packet: &[u8],
    now_ms: u64,
    res: Result<bool, KcpError>,
    id: u32,
    i: int,
    payloads: Seq<Seq<u8>>,
)
    requires
        call_ensures(KcpSocket::input, (socket, packet, now_ms), res),
        completes(*old(socket), packet@, id, i, payloads),
    ensures
        handed_over(
            old(socket).machine(),
            carried(packet@) + lost_payloads_of(*old(socket), packet@, id, i, payloads),
            old(socket)@.flush_ack_input,
            *final(socket),
            res,
        ),
{
    law_completed_block_reaches_kcp(
        *old(socket),
        packet@,
        now_ms,
        *final(socket),
        res,
        id,
        i,
        payloads,
    );
}

/// Sending waits exactly where an open connection that has sent before has no room; else it
/// hands KCP the front of the buffer, all of it up to 127 fragments, or 128 in stream mode,
/// or one for a first message without a number, and writes it out where that is due.
pub proof fn law_sending(
    socket: &mut KcpSocket,
    buf: &[u8],
    now_ms: u64,
    res: Poll<Result<usize, KcpError>>,
)
    requires
        call_ensures(KcpSocket::poll_send, (socket, buf, now_ms), res),
    ensures
        ({
            let before = old(socket)@;
            let after = final(socket)@;
            let fragments: int = if !before.sent_first && before.link.waiting_conv {
                1
            } else if before.link.stream {
                128
            } else {
                127
            };
            let most = fragments * before.link.mss;
            &&& res is Pending <==> !before.closed && before.sent_first && !has_room(before)
            &&& res is Pending ==> after == (SocketState { pending_sender: true, ..before })
                && final(socket).machine() == old(socket).machine()
            &&& res matches Poll::Ready(Err(err)) ==> err.spec_kind() == ErrorKind::BrokenPipe
            &&& before.closed ==> after == before && res is Ready && res->Ready_0 is Err
            &&& res matches Poll::Ready(Ok(n)) ==> {
                let queued = kcp_send_all(old(socket).machine(), buf@.take(n as int));
                let state = before.link.send_all(buf@.take(n as int));
                let under_way = state.in_flight + state.queue.len();
                let full = under_way >= state.snd_wnd || under_way >= state.rmt_wnd;
                &&& n == if buf@.len() <= most {
                    buf@.len() as int
                } else {
                    most
                }
                &&& after.sent_first
                &&& after.last_update_ms == now_ms
                &&& !full && !before.flush_write ==> final(socket).machine() == queued
                &&& full != before.flush_write ==> final(socket).machine() == kcp_flush(queued)
                &&& full || before.flush_write ==> kcp_quiet(final(socket).machine())
            }
        }),
{
    law_writer_waits_only_for_room(old(socket)@, buf@, now_ms, final(socket)@, res);
    if let Poll::Ready(Ok(n)) = res {
        law_how_much_is_sent(old(socket)@, buf@, now_ms, final(socket)@, n);
        law_message_is_written_out_when_due(*old(socket), buf@, now_ms, *final(socket), n);
    }
}

/// Reading an open connection gives the first message if that is complete, fits and is one
/// to be delivered; leaves one that does not fit; and waits, noted as waiting, if there is
/// none.
pub proof fn law_reading(
    socket: &mut KcpSocket,
    buf: &mut [u8],
    now_ms: u64,
    res: Poll<Result<usize, KcpError>>,
)
    requires
        call_ensures(KcpSocket::poll_recv, (socket, buf, now_ms), res),
        !old(socket)@.closed,
    ensures
        ({
            let before = old(socket)@;
            let after = final(socket)@;
            let message = head_message(before.link.received);
            match peek(before.link.received) {
                Ok(size) => {
                    &&& size > old(buf)@.len() ==> after == before && final(buf)@ == old(buf)@
                        && res == Poll::<Result<usize, KcpError>>::Ready(
                        Err(KcpError::UserBufTooSmall),
                    )
                    &&& size <= old(buf)@.len() && has_message(before) ==> {
                        &&& res is Ready && res->Ready_0 is Ok && res->Ready_0->Ok_0 == size
                        &&& final(buf)@.take(size as int) == message
                        &&& final(buf)@.skip(size as int) == old(buf)@.skip(size as int)
                        &&& after.last_update_ms == now_ms
                    }
                    &&& size <= old(buf)@.len() && !has_message(before) ==> res is Pending
                        && after.pending_receiver
                },
                Err(_) => res is Pending && final(buf)@ == old(buf)@ && after == (SocketState {
                    pending_receiver: true,
                    ..before
                }),
            }
        }),
        final(socket).machine() == match peek(old(socket)@.link.received) {
            Ok(size) if size <= old(buf)@.len() => kcp_recv(old(socket).machine()),
            _ => old(socket).machine(),
        },
{
    law_reader_is_given_the_first_message(
        old(socket)@,
        old(buf)@,
        now_ms,
        final(socket)@,
        final(buf)@,
        res,
    );
}

/// Telling the time tells it to KCP, wakes a writer for whom there is room then, and asks
/// to be called again after the update interval, or when KCP wants it while something is
/// under way.
pub proof fn law_updating(
    socket: &mut KcpSocket,
    now_ms: u64,
    res: Result<Duration, KcpError>,
)
    requires
        call_ensures(KcpSocket::update_at, (socket, now_ms), res),
    ensures
        ({
            let before = old(socket)@;
            let after = final(socket)@;
            let time = (now_ms % 0x1_0000_0000) as u32;
            let under_way = after.link.in_flight + after.link.queue.len();
            &&& waiting_ends_with_a_wake(before, after)
            &&& after.pending_receiver == before.pending_receiver
            &&& after.last_update_ms == before.last_update_ms
            &&& res matches Ok(delay) ==> {
                &&& final(socket).machine() == kcp_update(old(socket).machine(), time)
                &&& before.pending_sender ==> after.pending_sender == !has_room(after)
                &&& duration_nanos(delay) == 1_000_000 * if under_way == 0 {
                    before.update_interval_ms as int
                } else {
                    kcp_check(final(socket).machine(), time) as int
                }
            }
        }),
{
    law_update_wakes_the_writer(*old(socket), now_ms, *final(socket), res);
    if let Ok(delay) = res {
        law_update_tells_the_time(*old(socket), now_ms, *final(socket), delay);
    }
}

/// Flushing counts as activity if it succeeds, and leaves nothing waiting in the packet
/// that is being filled.
pub proof fn law_flushing(socket: &mut KcpSocket, now_ms: u64, res: Result<(), KcpError>)
    requires
        call_ensures(KcpSocket::flush, (socket, now_ms), res),
    ensures
        res is Ok ==> final(socket).machine() == kcp_flush(old(socket).machine()) && kcp_quiet(
            final(socket).machine(),
        ) && final(socket)@.last_update_ms == now_ms,
        res is Err ==> res->Err_0.spec_kind() == ErrorKind::BrokenPipe
            && final(socket)@.last_update_ms == old(socket)@.last_update_ms,
        final(socket)@.pending_sender == old(socket)@.pending_sender,
        final(socket)@.pending_receiver == old(socket)@.pending_receiver,
        final(socket)@.wakes == old(socket)@.wakes,
{
}

/// Closing wakes exactly those who wait, and leaves everything else as it is; whoever was
/// woken is then reported once.
pub proof fn law_closing(
    socket: &mut KcpSocket,
    closed: &mut KcpSocket,
    wakes: Wakes,
    reported: &mut KcpSocket,
    more: Wakes,
)
    requires
        call_ensures(KcpSocket::close, (socket,), ()),
        *old(closed) == *final(socket),
        call_ensures(KcpSocket::take_wakes, (closed,), wakes),
        *old(reported) == *final(closed),
        call_ensures(KcpSocket::take_wakes, (reported,), more),
    ensures
        final(socket)@.closed,
        final(socket)@.link == old(socket)@.link,
        !final(socket)@.pending_sender && !final(socket)@.pending_receiver,
        wakes.sender == (old(socket)@.wakes.sender || old(socket)@.pending_sender),
        wakes.receiver == (old(socket)@.wakes.receiver || old(socket)@.pending_receiver),
        final(closed)@ == (SocketState {
            wakes: (Wakes { sender: false, receiver: false }),
            ..final(socket)@
        }),
        !more.sender && !more.receiver,
{
}

/// A connection is made exactly with a usable configuration, and starts as that says.
pub proof fn law_making_a_connection(
    c: &KcpConfig,
    conv: u32,
    output: UdpOutput,
    stream: bool,
    now_ms: u64,
    res: Result<KcpSocket, KcpError>,
)
    requires
        call_ensures(KcpSocket::new, (c, conv, output, stream, now_ms), res),
    ensures
        res is Ok <==> c.fault() is None,
        res is Err ==> res->Err_0 == KcpError::Config(c.fault()->0),
        res is Ok ==> res->Ok_0@ == KcpSocket::start(c, conv, stream, now_ms)
            && res->Ok_0.channel() == output.channel() && kcp_quiet(res->Ok_0.machine()),
{
}

/// How the decisions on sending and on the next update go: the first message may always be
/// sent, any other if what waits leaves room in both windows and the number is known; and
/// the next update is after the interval while nothing waits, else when it is asked for.
pub proof fn law_decisions(
    sent_first: bool,
    waiting: usize,
    snd_wnd: u16,
    rmt_wnd: u16,
    waiting_conv: bool,
    may: bool,
    interval_ms: u64,
    check: u32,
    delay_ms: u64,
)
    requires
        call_ensures(may_send, (sent_first, waiting, snd_wnd, rmt_wnd, waiting_conv), may),
        call_ensures(next_delay_ms, (waiting, interval_ms, check), delay_ms),
    ensures
        may <==> !sent_first || waiting < snd_wnd && waiting < rmt_wnd && !waiting_conv,
        waiting == 0 ==> delay_ms == interval_ms,
        waiting > 0 ==> delay_ms == check,
{
}

/// How many bytes are sent at a time: all, up to 127 fragments, in stream mode 128, and one
/// for a first message without a number.
pub proof fn law_length_of_a_message(
    sent_first: bool,
    waiting_conv: bool,
    stream: bool,
    len: usize,
    mss: usize,
    n: usize,
)
    requires
        call_ensures(send_len, (sent_first, waiting_conv, stream, len, mss), n),
    ensures
        ({
            let fragments: int = if !sent_first && waiting_conv {
                1
            } else if stream {
                128
            } else {
                127
            };
            n == if len <= fragments * mss {
                len as int
            } else {
                fragments * mss
            }
        }),
{
    assert(1 * mss == mss);
}

/// A packet of another conversation is no failure; any other failure is passed on.
pub proof fn law_foreign_packets_are_no_failure(
    outcome: Result<usize, KcpError>,
    res: Result<bool, KcpError>,
)
    requires
        call_ensures(accepted, (outcome,), res),
    ensures
        outcome is Ok ==> res == Ok::<bool, KcpError>(true),
        outcome is Err && outcome->Err_0 is ConvInconsistent ==> res == Ok::<bool, KcpError>(
            false,
        ),
        outcome is Err && !(outcome->Err_0 is ConvInconsistent) ==> res is Err && res->Err_0
            == outcome->Err_0,
{
}

} // verus!
