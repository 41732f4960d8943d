//! What holds of connections.

use crate::codec::{is_erasure_of, present_count};
use crate::error::KcpError;
use crate::fec::block::{block_shards, is_block, missing_payloads};
use crate::fec::decoder::Decoded;
use crate::fec::packet::{marked_data, marked_parity};
use crate::link::laws::{
    law_two_goes_are_as_one, lemma_sending_all_keeps_the_bytes, lemma_taken_in_one_go,
};
use crate::link::{head_count, head_message, joined, kcp_input, Fragment, LinkState};
use crate::session::{inbound, Inbound};
use crate::skcp::{
    collects, feeds, feeds_all, feeds_direct, feeds_fec, feeds_next, feeds_rebuilt, feeds_rest,
    receives, sends, takes_in, KcpSocket, Poll, SocketState,
};
use crate::wire::le32_at;
use vstd::prelude::*;

pub mod losses;
pub mod operations;
pub mod starting;
pub mod transfer;
pub mod waking;

verus! {

/// A packet of another conversation is passed over: it changes nothing and is no error.
pub proof fn law_foreign_packet_is_passed_over(
    before: KcpSocket,
    packet: Seq<u8>,
    now_ms: u64,
    after: KcpSocket,
    res: Result<bool, KcpError>,
)
    requires
        feeds(before, packet, now_ms, after, res),
        packet.len() >= 24,
        !before@.link.waiting_conv,
        le32_at(packet, 0) != before@.link.conv,
    ensures
        after@ == before@,
        res == Ok::<bool, KcpError>(false),
{
}

/// A connection that waits for its conversation number takes it from the next packet.
pub proof fn law_awaited_number_is_taken_over(
    before: KcpSocket,
    packet: Seq<u8>,
    now_ms: u64,
    after: KcpSocket,
    res: Result<bool, KcpError>,
)
    requires
        feeds(before, packet, now_ms, after, res),
        packet.len() >= 24,
        before@.link.waiting_conv,
        le32_at(packet, 0) != before@.link.conv,
    ensures
        after@.link.conv == le32_at(packet, 0),
        !after@.link.waiting_conv,
{
}

/// After a packet that was taken, nobody waits who could go on.
pub proof fn law_nobody_is_left_waiting(
    before: KcpSocket,
    packet: Seq<u8>,
    now_ms: u64,
    after: KcpSocket,
    res: Result<bool, KcpError>,
)
    requires
        feeds(before, packet, now_ms, after, res),
        kcp_input(before.machine(), packet).1 is Ok,
        res is Ok,
    ensures
        !after@.sender_due(),
        !after@.receiver_due(),
        before@.pending_sender ==> after@.pending_sender || after@.wakes.sender,
        before@.pending_receiver ==> after@.pending_receiver || after@.wakes.receiver,
{
}

/// Once the first message is out, nothing is sent while a window is full or the
/// conversation number is not known.
pub proof fn law_sending_waits_for_room(
    before: SocketState,
    buf: Seq<u8>,
    now_ms: u64,
    after: SocketState,
    res: Poll<Result<usize, KcpError>>,
)
    requires
        sends(before, buf, now_ms, after, res),
        before.sent_first,
        !before.closed,
        !before.link.ready_to_send(),
    ensures
        res is Pending,
        after.link == before.link,
        after.pending_sender,
{
}

/// No buffer is too large to be sent: of an open connection, a writer that does not have
/// to wait is told how much of its buffer is on its way, unless the output fails.
pub proof fn law_no_buffer_is_too_large(
    before: SocketState,
    buf: Seq<u8>,
    now_ms: u64,
    after: SocketState,
    res: Poll<Result<usize, KcpError>>,
)
    requires
        sends(before, buf, now_ms, after, res),
        !before.closed,
        !before.sent_first || before.link.ready_to_send(),
    ensures
        res is Ready,
        res->Ready_0 is Err ==> res->Ready_0->Err_0 is IoError,
{
}

/// A buffer that KCP takes in one go is sent whole, and queued as KCP queues it in one go;
/// but for the first message, as long as the conversation number is not known.
pub proof fn law_buffer_that_kcp_takes_is_sent_whole(
    before: SocketState,
    buf: Seq<u8>,
    now_ms: u64,
    after: SocketState,
    n: usize,
)
    requires
        before.wf(),
        sends(before, buf, now_ms, after, Poll::Ready(Ok(n))),
        before.link.send(buf).1 is Ok,
        before.sent_first || !before.link.waiting_conv,
    ensures
        n == buf.len(),
        after.link.sent_from(before.link.send(buf).0),
{
    lemma_taken_in_one_go(before.link, buf);
    law_two_goes_are_as_one(before.link, buf);
    assert(before.sendable(buf) == buf);
}

/// What is reported as sent is the front of what was to be sent, queued behind what was
/// waiting; and at least one byte of it, if there is one.
pub proof fn law_reported_bytes_are_sent(
    before: SocketState,
    buf: Seq<u8>,
    now_ms: u64,
    after: SocketState,
    n: usize,
)
    requires
        before.wf(),
        sends(before, buf, now_ms, after, Poll::Ready(Ok(n))),
    ensures
        n <= buf.len(),
        buf.len() > 0 ==> n > 0,
        exists|queued: LinkState|
            #![trigger after.link.sent_from(queued)]
            after.link.sent_from(queued) && joined(queued.queue) == joined(before.link.queue)
                + buf.take(n as int),
{
    let data = before.sendable(buf);
    lemma_sending_all_keeps_the_bytes(before.link, data);
    assert(data =~= buf.take(n as int));
    assert(after.link.sent_from(before.link.send_all(data)));
}

/// A message ends within these fragments.
pub open spec fn has_end(fragments: Seq<Fragment>) -> bool {
    exists|i: int| 0 <= i < fragments.len() && (#[trigger] fragments[i]).0 == 0
}

/// What comes in behind a message does not change it.
proof fn lemma_more_behind_the_end(fragments: Seq<Fragment>, all: Seq<Fragment>)
    requires
        has_end(fragments),
        fragments.is_prefix_of(all),
    ensures
        head_count(all) == head_count(fragments),
        head_count(fragments) <= fragments.len(),
        head_message(all) == head_message(fragments),
    decreases fragments.len(),
{
    assert(all[0] == fragments[0]);
    if fragments[0].0 != 0 {
        let i = choose|i: int| 0 <= i < fragments.len() && (#[trigger] fragments[i]).0 == 0;
        let rest = fragments.drop_first();
        assert(rest[i - 1] == fragments[i]);
        assert(rest =~= all.drop_first().take(rest.len() as int));
        lemma_more_behind_the_end(rest, all.drop_first());
    }
    let count = head_count(fragments) as int;
    assert(all.take(count) =~= fragments.take(count));
}

/// Messages come out in the order in which they came in: after one has been read, the
/// next is the one behind it, whatever came in meanwhile.
pub proof fn law_messages_come_out_in_order(
    before: SocketState,
    buf: Seq<u8>,
    now_ms: u64,
    between: SocketState,
    filled: Seq<u8>,
    n: usize,
    next_buf: Seq<u8>,
    later_ms: u64,
    after: SocketState,
    next_filled: Seq<u8>,
    m: usize,
)
    requires
        !before.closed,
        receives(before, buf, now_ms, between, filled, Poll::Ready(Ok(n))),
        receives(between, next_buf, later_ms, after, next_filled, Poll::Ready(Ok(m))),
        has_end(before.link.received.skip(head_count(before.link.received) as int)),
    ensures
        filled.take(n as int) == head_message(before.link.received),
        next_filled.take(m as int) == head_message(
            before.link.received.skip(head_count(before.link.received) as int),
        ),
{
    let behind = before.link.received.skip(head_count(before.link.received) as int);
    lemma_more_behind_the_end(behind, between.link.received);
    assert(filled.take(n as int) =~= head_message(before.link.received));
    assert(next_filled.take(m as int) =~= head_message(between.link.received));
}

/// Payloads of lost packets reach KCP: with the packet that completes a block, KCP is
/// handed the payloads of all data packets of the block that did not come in, in order.
pub proof fn law_lost_payloads_reach_kcp(
    before: KcpSocket,
    packet: Seq<u8>,
    now_ms: u64,
    after: KcpSocket,
    res: Result<bool, KcpError>,
    payloads: Seq<Seq<u8>>,
)
    requires
        feeds_fec(before, packet, now_ms, after, res),
        before@.fec is Some,
        ({
            let decoder = before@.fec->0;
            let slots = decoder.filled_by(packet);
            &&& decoder.takes(packet)
            &&& present_count(slots) >= decoder.data_shards
            &&& is_block(payloads, decoder.data_shards, decoder.parity_shards)
            &&& is_erasure_of(slots, block_shards(payloads, decoder.parity_shards))
        }),
    ensures
        ({
            let decoder = before@.fec->0;
            let lost = missing_payloads(
                payloads,
                decoder.filled_by(packet),
                decoder.data_shards as int,
            );
            exists|direct: KcpSocket, first: Result<bool, KcpError>| #[trigger]
                feeds_direct(before, packet, now_ms, direct, first) && (first is Ok ==> exists|
                    ready: KcpSocket,
                    rest: Result<bool, KcpError>,
                |
                    #![trigger feeds_all(ready, lost, now_ms, after, rest)]
                    collects(direct, packet, ready) && feeds_all(ready, lost, now_ms, after, rest))
        }),
{
}

/// A conversation number that is known stays, whatever packet KCP is handed.
proof fn lemma_known_number_stays(
    before: KcpSocket,
    packet: Seq<u8>,
    now_ms: u64,
    after: KcpSocket,
    res: Result<bool, KcpError>,
)
    requires
        feeds(before, packet, now_ms, after, res),
        !before@.link.waiting_conv,
    ensures
        after@.link.conv == before@.link.conv,
        !after@.link.waiting_conv,
{
}

/// A conversation number that is known stays, whatever packets KCP is handed.
proof fn lemma_known_number_stays_for_all(
    before: KcpSocket,
    packets: Seq<Seq<u8>>,
    now_ms: u64,
    after: KcpSocket,
    res: Result<bool, KcpError>,
)
    requires
        feeds_all(before, packets, now_ms, after, res),
        !before@.link.waiting_conv,
    ensures
        after@.link.conv == before@.link.conv,
        !after@.link.waiting_conv,
    decreases packets.len(),
{
    if packets.len() > 0 {
        let (mid, so_far) = choose|mid: KcpSocket, so_far: Result<bool, KcpError>|
            feeds_all(before, packets.drop_last(), now_ms, mid, so_far) && #[trigger] feeds_next(
                mid,
                so_far,
                packets.last(),
                now_ms,
                after,
                res,
            );
        lemma_known_number_stays_for_all(before, packets.drop_last(), now_ms, mid, so_far);
        if so_far is Ok {
            let last = choose|last: Result<bool, KcpError>| #[trigger]
                feeds(mid, packets.last(), now_ms, after, last) && match last {
                    Ok(more) => res == Ok::<bool, KcpError>(so_far->Ok_0 || more),
                    Err(_) => res == last,
                };
            lemma_known_number_stays(mid, packets.last(), now_ms, after, last);
        }
    }
}

/// After a datagram whose segments have the number that the connection has, or takes
/// over, that is its number.
pub proof fn lemma_settled_number_stays(
    before: KcpSocket,
    packet: Seq<u8>,
    now_ms: u64,
    after: KcpSocket,
    res: Result<bool, KcpError>,
    conv: u32,
)
    requires
        takes_in(before, packet, now_ms, after, res),
        inbound(packet) == Inbound::Segment(conv),
        before@.link.waiting_conv && marked_data(packet) ==> before@.fec is Some,
        before@.link.waiting_conv == (before@.link.conv != conv),
    ensures
        after@.link.conv == conv,
        !after@.link.waiting_conv,
{
    if before@.fec is Some && (marked_data(packet) || marked_parity(packet)) {
        let (direct, first) = choose|direct: KcpSocket, first: Result<bool, KcpError>| #[trigger]
            feeds_direct(before, packet, now_ms, direct, first) && feeds_rest(
                direct,
                first,
                packet,
                now_ms,
                after,
                res,
            );
        if first is Ok {
            let ready = choose|ready: KcpSocket| #[trigger]
                collects(direct, packet, ready) && feeds_rebuilt(
                    ready,
                    direct@.fec->0.decode(packet).1,
                    first->Ok_0,
                    now_ms,
                    after,
                    res,
                );
            if let Decoded::Recovered(payloads) = direct@.fec->0.decode(packet).1 {
                let rest = choose|rest: Result<bool, KcpError>| #[trigger]
                    feeds_all(ready, payloads, now_ms, after, rest) && res == (match rest {
                        Ok(more) => Ok::<bool, KcpError>(first->Ok_0 || more),
                        Err(_) => rest,
                    });
                lemma_known_number_stays_for_all(ready, payloads, now_ms, after, rest);
            }
        }
    }
}

/// The first message, sent while the conversation number is not known, is one fragment.
pub proof fn law_first_message_is_one_fragment(
    before: SocketState,
    buf: Seq<u8>,
    now_ms: u64,
    after: SocketState,
    n: usize,
)
    requires
        before.wf(),
        sends(before, buf, now_ms, after, Poll::Ready(Ok(n))),
        !before.sent_first,
        before.link.waiting_conv,
    ensures
        n <= before.link.mss,
{
    law_reported_bytes_are_sent(before, buf, now_ms, after, n);
}

/// Sending keeps a connection well formed.
pub proof fn lemma_sending_keeps_wf(
    before: SocketState,
    buf: Seq<u8>,
    now_ms: u64,
    after: SocketState,
    res: Poll<Result<usize, KcpError>>,
)
    requires
        before.wf(),
        sends(before, buf, now_ms, after, res),
    ensures
        after.wf(),
{
}

} // verus!
