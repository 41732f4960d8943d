//! What a client does with a datagram.

use crate::codec::present_count;
use crate::error::KcpError;
use crate::fec::laws::window::{belongs, is_free};
use crate::link::{kcp_with_conv, UdpOutput};
use crate::session::{adopts, receives_datagram};
use crate::skcp::laws::losses::{
    carried, completes, handed_over, is_marked, law_completed_block_reaches_kcp,
    law_marked_datagram_is_collected, law_plain_datagram_reaches_kcp, lost_payloads_of,
};
use crate::skcp::laws::waking::{
    handed, has_message, has_room, law_datagram_wakes_who_can_go_on, somebody_was_woken,
    taken_or_left, waiting_ends_with_a_wake,
};
use crate::skcp::{takes_in, KcpSocket};
use crate::wire::le32_at;
use kcp::Kcp;
use vstd::prelude::*;

verus! {

/// A parity packet: it carries no segment of its own.
pub open spec fn is_parity(packet: Seq<u8>) -> bool {
    packet.len() >= 6 && packet[4] == 0xf2 && packet[5] == 0
}

/// Where the segments of a datagram begin: behind the eight bytes in front of the payload
/// of a data packet, else at the start.
pub open spec fn segments_at(packet: Seq<u8>) -> int {
    if packet.len() >= 8 && packet[4] == 0xf1 && packet[5] == 0 {
        8
    } else {
        0
    }
}

/// A client's machine when KCP is handed what a datagram brings: if the number of the
/// datagram's conversation is not the client's, and the client does not wait for one
/// anyway, it is told that number first.
pub open spec fn machine_for(before: KcpSocket, packet: Seq<u8>) -> Kcp<UdpOutput> {
    let conv = le32_at(packet, segments_at(packet)) as u32;
    if is_parity(packet) || before@.link.waiting_conv || before@.link.conv == conv {
        before.machine()
    } else {
        kcp_with_conv(before.machine(), conv)
    }
}

/// The connection that takes the datagram.
proof fn lemma_who_takes_it_in(
    before: KcpSocket,
    packet: Seq<u8>,
    now_ms: u64,
    after: KcpSocket,
    res: Option<Result<bool, KcpError>>,
) -> (ready: KcpSocket)
    requires
        receives_datagram(before, packet, now_ms, after, res),
        is_parity(packet) || packet.len() >= segments_at(packet) + 24,
    ensures
        res is Some,
        takes_in(ready, packet, now_ms, after, res->0),
        ready.machine() == machine_for(before, packet),
        ready@.fec == before@.fec,
        ready@.flush_ack_input == before@.flush_ack_input,
        ready@.pending_sender == before@.pending_sender,
        ready@.pending_receiver == before@.pending_receiver,
        ready@.wakes == before@.wakes,
        has_message(ready@) == has_message(before@),
        has_room(ready@) == has_room(before@),
{
    if is_parity(packet) {
        before
    } else {
        let at = segments_at(packet);
        let conv = le32_at(packet, at) as u32;
        assert(forall|k: int| 0 <= k < 4 ==> #[trigger] packet.skip(8)[k] == packet[8 + k]
            || packet.len() < 32);
        assert(at == 8 ==> le32_at(packet.skip(8), 0) == le32_at(packet, 8));
        let ready = choose|ready: KcpSocket| #[trigger]
            adopts(before, conv, ready) && takes_in(ready, packet, now_ms, after, res->0);
        assert(adopts(before, conv, ready));
        ready
    }
}

/// A datagram that is no parity packet and too short to carry a segment is dropped, and
/// changes nothing; no other is dropped.
pub proof fn law_only_short_datagrams_are_dropped(
    before: KcpSocket,
    packet: Seq<u8>,
    now_ms: u64,
    after: KcpSocket,
    res: Option<Result<bool, KcpError>>,
)
    requires
        receives_datagram(before, packet, now_ms, after, res),
    ensures
        res is None <==> !is_parity(packet) && packet.len() < segments_at(packet) + 24,
        res is None ==> after == before,
{
}

/// Losses are made good for a client: with the datagram that completes a block, parity or
/// data, KCP is handed what the datagram carries and then the payloads of all data packets
/// of the block that did not come in, in order; and the block is closed.
pub proof fn law_client_makes_losses_good(
    before: KcpSocket,
    packet: Seq<u8>,
    now_ms: u64,
    after: KcpSocket,
    res: Option<Result<bool, KcpError>>,
    id: u32,
    i: int,
    payloads: Seq<Seq<u8>>,
)
    requires
        receives_datagram(before, packet, now_ms, after, res),
        is_parity(packet) || packet.len() >= segments_at(packet) + 24,
        completes(before, packet, id, i, payloads),
    ensures
        res is Some,
        handed_over(
            machine_for(before, packet),
            carried(packet) + lost_payloads_of(before, packet, id, i, payloads),
            before@.flush_ack_input,
            after,
            res->0,
        ),
        res->0 is Ok ==> after@.fec is Some && !after@.fec->0.sets.contains_key(id),
{
    let ready = lemma_who_takes_it_in(before, packet, now_ms, after, res);
    law_completed_block_reaches_kcp(ready, packet, now_ms, after, res->0, id, i, payloads);
}

/// A datagram of forward error correction, parity or data, that falls into a free place of
/// a block that is not too old is in a client's decoder afterwards, as long as the block
/// has too few packets; if it makes them `data_shards`, the block is closed.
pub proof fn law_client_collects_packets(
    before: KcpSocket,
    packet: Seq<u8>,
    now_ms: u64,
    after: KcpSocket,
    res: Option<Result<bool, KcpError>>,
    id: u32,
    i: int,
)
    requires
        receives_datagram(before, packet, now_ms, after, res),
        is_parity(packet) || packet.len() >= segments_at(packet) + 24,
        before@.fec is Some,
        before@.fec->0.wf(),
        is_marked(packet),
        belongs(packet, before@.fec->0.shard_size(), id, i),
        is_free(before@.fec->0, id, i),
        -0x8000_0000 < id - before@.fec->0.newest < 0x8000_0000,
        before@.fec->0.newest - id <= 3 * before@.fec->0.shard_size(),
    ensures
        res is Some,
        ({
            let decoder = before@.fec->0;
            let had: nat = if decoder.sets.contains_key(id) {
                present_count(decoder.sets[id])
            } else {
                0
            };
            &&& had + 1 < decoder.data_shards ==> handed_over(
                machine_for(before, packet),
                carried(packet),
                before@.flush_ack_input,
                after,
                res->0,
            )
            &&& res->0 is Ok && had + 1 < decoder.data_shards ==> {
                &&& after@.fec is Some
                &&& after@.fec->0.sets.contains_key(id)
                &&& after@.fec->0.sets[id][i] == Some(packet.skip(6))
                &&& present_count(after@.fec->0.sets[id]) == had + 1
            }
            &&& res->0 is Ok && had + 1 >= decoder.data_shards ==> after@.fec is Some
                && !after@.fec->0.sets.contains_key(id)
        }),
{
    let ready = lemma_who_takes_it_in(before, packet, now_ms, after, res);
    law_marked_datagram_is_collected(ready, packet, now_ms, after, res->0, id, i);
}

/// Without forward error correction, a client's machine is handed every datagram that is
/// not dropped as it is; with it, every one that is not marked.
pub proof fn law_client_hands_plain_datagrams_on(
    before: KcpSocket,
    packet: Seq<u8>,
    now_ms: u64,
    after: KcpSocket,
    res: Option<Result<bool, KcpError>>,
)
    requires
        receives_datagram(before, packet, now_ms, after, res),
        res is Some,
        before@.fec is None || !is_marked(packet),
    ensures
        handed_over(
            machine_for(before, packet),
            seq![packet],
            before@.flush_ack_input,
            after,
            res->0,
        ),
        after@.fec == before@.fec,
{
    law_only_short_datagrams_are_dropped(before, packet, now_ms, after, res);
    let ready = lemma_who_takes_it_in(before, packet, now_ms, after, res);
    law_plain_datagram_reaches_kcp(ready, packet, now_ms, after, res->0);
}

/// A datagram wakes those of a client's readers and writers who can go on, and nobody else.
pub proof fn law_client_wakes_who_can_go_on(
    before: KcpSocket,
    packet: Seq<u8>,
    now_ms: u64,
    after: KcpSocket,
    res: Option<Result<bool, KcpError>>,
)
    requires
        receives_datagram(before, packet, now_ms, after, res),
        res is Some,
    ensures
        waiting_ends_with_a_wake(before@, after@),
        res->0 is Ok ==> res->0->Ok_0 == somebody_was_woken(before@, after@),
        res->0 is Ok && taken_or_left(
            machine_for(before, packet),
            handed(before, packet),
            before@.flush_ack_input,
        ) ==> {
            &&& before@.pending_receiver && !has_message(before@) && has_message(after@)
                ==> after@.wakes.receiver && !after@.pending_receiver
            &&& before@.pending_sender && !has_room(before@) && has_room(after@)
                ==> after@.wakes.sender && !after@.pending_sender
        },
{
    law_only_short_datagrams_are_dropped(before, packet, now_ms, after, res);
    let ready = lemma_who_takes_it_in(before, packet, now_ms, after, res);
    law_datagram_wakes_who_can_go_on(ready, packet, now_ms, after, res->0);
}

} // verus!
