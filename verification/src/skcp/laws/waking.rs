//! Who is woken, and when.

use crate::error::KcpError;
use crate::fec::decoder::Decoded;
use crate::link::{kcp_input, link, peek, LinkState, UdpOutput};
use crate::skcp::laws::losses::{
    carried, is_marked, lemma_feed, lemma_feed_all, lemma_two_lots, machine_after,
};
use crate::skcp::{
    collects, feeds, feeds_all, feeds_direct, feeds_next, feeds_rebuilt, feeds_rest, receives,
    sends, takes_in, updates, KcpSocket, Poll, SocketState,
};
use kcp::Kcp;
use std::time::Duration;
use vstd::prelude::*;

verus! {

/// The first message in the receive queue is complete, and is one that a reader is given:
/// it has bytes, or messages without bytes are delivered.
pub open spec fn has_message(state: SocketState) -> bool {
    match peek(state.link.received) {
        Ok(size) => size > 0 || state.allow_recv_empty_packet,
        Err(_) => false,
    }
}

/// What is queued and in flight leaves room in both windows, and the conversation number
/// is known.
pub open spec fn has_room(state: SocketState) -> bool {
    let under_way = state.link.in_flight + state.link.queue.len();
    under_way < state.link.snd_wnd && under_way < state.link.rmt_wnd && !state.link.waiting_conv
}

/// Whoever stopped waiting was woken, and nobody else was; and nobody started to wait.
pub open spec fn waiting_ends_with_a_wake(before: SocketState, after: SocketState) -> bool {
    &&& after.pending_receiver ==> before.pending_receiver
    &&& after.pending_sender ==> before.pending_sender
    &&& after.wakes.receiver == (before.wakes.receiver || before.pending_receiver
        && !after.pending_receiver)
    &&& after.wakes.sender == (before.wakes.sender || before.pending_sender
        && !after.pending_sender)
}

/// Somebody waited and waits no more.
pub open spec fn somebody_was_woken(before: SocketState, after: SocketState) -> bool {
    ||| before.pending_receiver && !after.pending_receiver
    ||| before.pending_sender && !after.pending_sender
}

/// If nobody waited before who could have gone on, nobody does now.
pub open spec fn nobody_is_overlooked(before: SocketState, after: SocketState) -> bool {
    &&& !(before.pending_receiver && has_message(before)) ==> !(after.pending_receiver
        && has_message(after))
    &&& !(before.pending_sender && has_room(before)) ==> !(after.pending_sender && has_room(
        after,
    ))
}

/// Of these packets, handed to the machine one after the other, it takes each one or leaves
/// it with nothing done. Of a packet whose first segment is of the machine's conversation
/// and a later one is not, KCP does the first part and then leaves it.
pub open spec fn taken_or_left(
    machine: Kcp<UdpOutput>,
    packets: Seq<Seq<u8>>,
    acks: bool,
) -> bool
    decreases packets.len(),
{
    packets.len() == 0 || {
        let before = machine_after(machine, packets.drop_last(), acks);
        let (fed, outcome) = kcp_input(before, packets.last());
        taken_or_left(machine, packets.drop_last(), acks) && (outcome is Ok || link(fed) == link(
            before,
        ))
    }
}

/// Packets that are handed over in two lots.
proof fn lemma_two_lots_are_taken(
    machine: Kcp<UdpOutput>,
    first: Seq<Seq<u8>>,
    second: Seq<Seq<u8>>,
    acks: bool,
)
    ensures
        taken_or_left(machine, first + second, acks) == (taken_or_left(machine, first, acks)
            && taken_or_left(machine_after(machine, first, acks), second, acks)),
    decreases second.len(),
{
    if second.len() == 0 {
        assert(first + second =~= first);
    } else {
        lemma_two_lots(machine, first, second.drop_last(), acks);
        lemma_two_lots_are_taken(machine, first, second.drop_last(), acks);
        assert((first + second).drop_last() =~= first + second.drop_last());
    }
}

/// What holds of the waiting when KCP is handed a packet.
proof fn lemma_feed_wakes(
    before: KcpSocket,
    packet: Seq<u8>,
    now_ms: u64,
    after: KcpSocket,
    res: Result<bool, KcpError>,
)
    requires
        feeds(before, packet, now_ms, after, res),
    ensures
        waiting_ends_with_a_wake(before@, after@),
        after@.allow_recv_empty_packet == before@.allow_recv_empty_packet,
        res is Ok ==> res->Ok_0 == somebody_was_woken(before@, after@),
        res is Ok && taken_or_left(before.machine(), seq![packet], before@.flush_ack_input)
            ==> nobody_is_overlooked(before@, after@),
{
    let one = seq![packet];
    assert(one.drop_last() =~= Seq::<Seq<u8>>::empty());
    assert(machine_after(before.machine(), one.drop_last(), before@.flush_ack_input)
        == before.machine());
    assert(taken_or_left(before.machine(), one, before@.flush_ack_input) ==> {
        let (fed, outcome) = kcp_input(before.machine(), packet);
        outcome is Ok || link(fed) == link(before.machine())
    });
    before.lemma_link();
}

/// What holds of the waiting when KCP is handed packets.
proof fn lemma_feeding_all_wakes(
    before: KcpSocket,
    packets: Seq<Seq<u8>>,
    now_ms: u64,
    after: KcpSocket,
    res: Result<bool, KcpError>,
)
    requires
        feeds_all(before, packets, now_ms, after, res),
    ensures
        waiting_ends_with_a_wake(before@, after@),
        after@.allow_recv_empty_packet == before@.allow_recv_empty_packet,
        res is Ok ==> res->Ok_0 == somebody_was_woken(before@, after@),
        res is Ok && taken_or_left(before.machine(), packets, before@.flush_ack_input)
            ==> nobody_is_overlooked(before@, after@),
    decreases packets.len(),
{
    if packets.len() > 0 {
        let (mid, so_far) = choose|mid: KcpSocket, so_far: Result<bool, KcpError>|
            feeds_all(before, packets.drop_last(), now_ms, mid, so_far) && #[trigger] feeds_next(
                mid,
                so_far,
                packets.last(),
                now_ms,
                after,
                res,
            );
        lemma_feeding_all_wakes(before, packets.drop_last(), now_ms, mid, so_far);
        if so_far is Ok {
            let last = choose|last: Result<bool, KcpError>| #[trigger]
                feeds(mid, packets.last(), now_ms, after, last) && match last {
                    Ok(more) => res == Ok::<bool, KcpError>(so_far->Ok_0 || more),
                    Err(_) => res == last,
                };
            lemma_feed_wakes(mid, packets.last(), now_ms, after, last);
            lemma_feed_all(before, packets.drop_last(), now_ms, mid, so_far);
            let last_one = seq![packets.last()];
            let acks = before@.flush_ack_input;
            lemma_two_lots_are_taken(before.machine(), packets.drop_last(), last_one, acks);
            assert(packets.drop_last() + last_one =~= packets);
        }
    }
}

/// The packets that KCP is handed of a datagram.
pub open spec fn handed(before: KcpSocket, packet: Seq<u8>) -> Seq<Seq<u8>> {
    if before@.fec is Some && is_marked(packet) {
        carried(packet) + match before@.fec->0.decode(packet).1 {
            Decoded::Recovered(payloads) => payloads,
            _ => Seq::empty(),
        }
    } else {
        seq![packet]
    }
}

/// A datagram wakes those who can go on, and nobody else. A reader that waits with nothing
/// to read is woken by the datagram with which the first message in the receive queue is
/// complete, whatever is queued or in flight for sending; a writer that waits for room is
/// woken by the datagram that makes some. Nobody stops waiting without being woken, nobody
/// is woken who did not wait, and the result tells whether somebody was.
///
/// Only a packet that KCP leaves halfway wakes nobody for what KCP did before.
pub proof fn law_datagram_wakes_who_can_go_on(
    before: KcpSocket,
    packet: Seq<u8>,
    now_ms: u64,
    after: KcpSocket,
    res: Result<bool, KcpError>,
)
    requires
        takes_in(before, packet, now_ms, after, res),
    ensures
        waiting_ends_with_a_wake(before@, after@),
        res is Ok ==> res->Ok_0 == somebody_was_woken(before@, after@),
        res is Ok && taken_or_left(
            before.machine(),
            handed(before, packet),
            before@.flush_ack_input,
        ) ==> {
            &&& before@.pending_receiver && !has_message(before@) && has_message(after@)
                ==> after@.wakes.receiver && !after@.pending_receiver
            &&& before@.pending_sender && !has_room(before@) && has_room(after@)
                ==> after@.wakes.sender && !after@.pending_sender
        },
{
    if before@.fec is None || !is_marked(packet) {
        lemma_feed_wakes(before, packet, now_ms, after, res);
    } else {
        let (direct, first) = choose|direct: KcpSocket, first: Result<bool, KcpError>| #[trigger]
            feeds_direct(before, packet, now_ms, direct, first) && feeds_rest(
                direct,
                first,
                packet,
                now_ms,
                after,
                res,
            );
        let acks = before@.flush_ack_input;
        let one = carried(packet);
        if one.len() > 0 {
            lemma_feed_wakes(before, packet.skip(8), now_ms, direct, first);
            lemma_feed(before, packet.skip(8), now_ms, direct, first);
        }
        if first is Ok {
            let ready = choose|ready: KcpSocket| #[trigger]
                collects(direct, packet, ready) && feeds_rebuilt(
                    ready,
                    direct@.fec->0.decode(packet).1,
                    first->Ok_0,
                    now_ms,
                    after,
                    res,
                );
            if let Decoded::Recovered(payloads) = direct@.fec->0.decode(packet).1 {
                let rest = choose|rest: Result<bool, KcpError>| #[trigger]
                    feeds_all(ready, payloads, now_ms, after, rest) && res == (match rest {
                        Ok(more) => Ok::<bool, KcpError>(first->Ok_0 || more),
                        Err(_) => rest,
                    });
                lemma_feeding_all_wakes(ready, payloads, now_ms, after, rest);
                lemma_two_lots_are_taken(before.machine(), one, payloads, acks);
            }
        }
    }
}

/// After a packet that KCP took, a reader that waited is woken if the first message in the
/// receive queue is complete and is one to be delivered, and goes on waiting if not; a
/// writer that waited is woken if there is room, and goes on waiting if not. What the one
/// waits for does not matter to the other.
pub proof fn law_packet_that_kcp_took_wakes(
    before: KcpSocket,
    packet: Seq<u8>,
    now_ms: u64,
    after: KcpSocket,
    res: Result<bool, KcpError>,
)
    requires
        feeds(before, packet, now_ms, after, res),
        kcp_input(before.machine(), packet).1 is Ok,
        res is Ok,
    ensures
        before@.pending_receiver && has_message(after@) ==> after@.wakes.receiver
            && !after@.pending_receiver,
        before@.pending_receiver && !has_message(after@) ==> after@.wakes.receiver
            == before@.wakes.receiver && after@.pending_receiver,
        before@.pending_sender && has_room(after@) ==> after@.wakes.sender
            && !after@.pending_sender,
        before@.pending_sender && !has_room(after@) ==> after@.wakes.sender
            == before@.wakes.sender && after@.pending_sender,
        after@.link == link(kcp_input(before.machine(), packet).0),
        after@.last_update_ms == now_ms,
{
}

/// A packet that KCP did not take is no activity and wakes nobody.
pub proof fn law_packet_that_kcp_refused_wakes_nobody(
    before: KcpSocket,
    packet: Seq<u8>,
    now_ms: u64,
    after: KcpSocket,
    res: Result<bool, KcpError>,
)
    requires
        feeds(before, packet, now_ms, after, res),
        kcp_input(before.machine(), packet).1 is Err,
    ensures
        after@ == (SocketState { link: after@.link, ..before@ }),
        res is Ok ==> !res->Ok_0,
        res is Ok <==> kcp_input(before.machine(), packet).1->Err_0 is ConvInconsistent,
        res is Err ==> res->Err_0 == kcp_input(before.machine(), packet).1->Err_0,
{
}

/// Telling KCP the time wakes a writer if there is room afterwards, and leaves a reader
/// alone.
pub proof fn law_update_wakes_the_writer(
    before: KcpSocket,
    now_ms: u64,
    after: KcpSocket,
    res: Result<Duration, KcpError>,
)
    requires
        updates(before, now_ms, after, res),
    ensures
        waiting_ends_with_a_wake(before@, after@),
        after@.pending_receiver == before@.pending_receiver,
        res is Ok && before@.pending_sender ==> after@.pending_sender == !has_room(after@),
        res is Err ==> after@.pending_sender == before@.pending_sender,
        after@.last_update_ms == before@.last_update_ms,
        after@.closed == before@.closed,
{
    let state = choose|state: LinkState| #[trigger]
        state.sent_from(before@.link) && {
            let fed = SocketState { link: state, ..before@ };
            match res {
                Ok(_) => after@ == fed.woken(fed.sender_due(), false),
                Err(_) => after@ == fed,
            }
        };
    let fed = SocketState { link: state, ..before@ };
    assert(res is Ok ==> after@ == fed.woken(fed.sender_due(), false));
}

/// Whoever is told to wait is noted as waiting, so that a later wake-up reaches them; who
/// is not told to wait is not.
pub proof fn law_who_waits_is_noted(
    before: SocketState,
    buf: Seq<u8>,
    now_ms: u64,
    after_send: SocketState,
    sent: Poll<Result<usize, KcpError>>,
    after_recv: SocketState,
    filled: Seq<u8>,
    received: Poll<Result<usize, KcpError>>,
)
    requires
        sends(before, buf, now_ms, after_send, sent),
        receives(before, buf, now_ms, after_recv, filled, received),
    ensures
        after_send.pending_sender == (before.pending_sender || sent is Pending),
        after_send.pending_receiver == before.pending_receiver,
        after_recv.pending_receiver == (before.pending_receiver || received is Pending),
        after_recv.pending_sender == before.pending_sender,
        after_send.wakes == before.wakes,
        after_recv.wakes == before.wakes,
{
}

} // verus!
