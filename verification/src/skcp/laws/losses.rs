//! What reaches KCP of a datagram, with forward error correction and without.

use crate::codec::{is_erasure_of, present_count};
use crate::error::KcpError;
use crate::fec::block::{block_shards, is_block, missing_payloads};
use crate::fec::decoder::Decoded;
use crate::fec::laws::window::{
    belongs, is_free, law_packet_is_collected, lemma_fills_free_place, with_packet,
};
use crate::link::{kcp_flush_ack, kcp_input, UdpOutput};
use crate::skcp::{
    collects, feeds, feeds_all, feeds_direct, feeds_next, feeds_rebuilt, feeds_rest, takes_in,
    KcpSocket,
};
use kcp::Kcp;
use vstd::prelude::*;

verus! {

/// The machine after it was handed these packets one after the other, and wrote its
/// acknowledgements after each one that it took, if that is asked for.
pub open spec fn machine_after(
    machine: Kcp<UdpOutput>,
    packets: Seq<Seq<u8>>,
    acks: bool,
) -> Kcp<UdpOutput>
    decreases packets.len(),
{
    if packets.len() == 0 {
        machine
    } else {
        let before = machine_after(machine, packets.drop_last(), acks);
        let (fed, outcome) = kcp_input(before, packets.last());
        if acks && outcome is Ok {
            kcp_flush_ack(fed)
        } else {
            fed
        }
    }
}

/// Of these packets, handed to the machine one after the other, it takes each one or finds
/// that it belongs to another conversation.
pub open spec fn none_fails(
    machine: Kcp<UdpOutput>,
    packets: Seq<Seq<u8>>,
    acks: bool,
) -> bool
    decreases packets.len(),
{
    packets.len() == 0 || {
        let before = machine_after(machine, packets.drop_last(), acks);
        let outcome = kcp_input(before, packets.last()).1;
        none_fails(machine, packets.drop_last(), acks) && (outcome is Err ==> outcome->Err_0
            is ConvInconsistent)
    }
}

/// Packets that are handed over in two lots.
pub(crate) proof fn lemma_two_lots(
    machine: Kcp<UdpOutput>,
    first: Seq<Seq<u8>>,
    second: Seq<Seq<u8>>,
    acks: bool,
)
    ensures
        machine_after(machine, first + second, acks) == machine_after(
            machine_after(machine, first, acks),
            second,
            acks,
        ),
        none_fails(machine, first + second, acks) == (none_fails(machine, first, acks)
            && none_fails(machine_after(machine, first, acks), second, acks)),
    decreases second.len(),
{
    if second.len() == 0 {
        assert(first + second =~= first);
    } else {
        lemma_two_lots(machine, first, second.drop_last(), acks);
        assert((first + second).drop_last() =~= first + second.drop_last());
    }
}

/// One packet.
pub(crate) proof fn lemma_feed(
    before: KcpSocket,
    packet: Seq<u8>,
    now_ms: u64,
    after: KcpSocket,
    res: Result<bool, KcpError>,
)
    requires
        feeds(before, packet, now_ms, after, res),
    ensures
        ({
            let acks = before@.flush_ack_input;
            let machine = before.machine();
            &&& res is Ok ==> after.machine() == machine_after(machine, seq![packet], acks)
                && none_fails(machine, seq![packet], acks)
            &&& !acks && none_fails(machine, seq![packet], acks) ==> res is Ok
            &&& after@.flush_ack_input == acks
            &&& after@.fec == before@.fec
        }),
{
    let acks = before@.flush_ack_input;
    let machine = before.machine();
    let one = seq![packet];
    assert(one.drop_last() =~= Seq::<Seq<u8>>::empty());
    reveal_with_fuel(machine_after, 2);
    reveal_with_fuel(none_fails, 2);
    assert(machine_after(machine, one.drop_last(), acks) == machine);
}

/// Packets one after the other.
pub(crate) proof fn lemma_feed_all(
    before: KcpSocket,
    packets: Seq<Seq<u8>>,
    now_ms: u64,
    after: KcpSocket,
    res: Result<bool, KcpError>,
)
    requires
        feeds_all(before, packets, now_ms, after, res),
    ensures
        ({
            let acks = before@.flush_ack_input;
            let machine = before.machine();
            &&& res is Ok ==> after.machine() == machine_after(machine, packets, acks)
                && none_fails(machine, packets, acks)
            &&& !acks && none_fails(machine, packets, acks) ==> res is Ok
            &&& after@.flush_ack_input == acks
            &&& after@.fec == before@.fec
        }),
    decreases packets.len(),
{
    if packets.len() > 0 {
        let acks = before@.flush_ack_input;
        let (mid, so_far) = choose|mid: KcpSocket, so_far: Result<bool, KcpError>|
            feeds_all(before, packets.drop_last(), now_ms, mid, so_far) && #[trigger] feeds_next(
                mid,
                so_far,
                packets.last(),
                now_ms,
                after,
                res,
            );
        lemma_feed_all(before, packets.drop_last(), now_ms, mid, so_far);
        if so_far is Ok {
            let last = choose|last: Result<bool, KcpError>| #[trigger]
                feeds(mid, packets.last(), now_ms, after, last) && match last {
                    Ok(more) => res == Ok::<bool, KcpError>(so_far->Ok_0 || more),
                    Err(_) => res == last,
                };
            lemma_feed(mid, packets.last(), now_ms, after, last);
            lemma_two_lots(before.machine(), packets.drop_last(), seq![packets.last()], acks);
            assert(packets.drop_last() + seq![packets.last()] =~= packets);
        }
    }
}

/// A datagram that is marked as one of forward error correction.
pub open spec fn is_marked(packet: Seq<u8>) -> bool {
    packet.len() >= 6 && (packet[4] == 0xf1 || packet[4] == 0xf2) && packet[5] == 0
}

/// What a datagram of forward error correction carries for KCP itself: a data packet its
/// payload, behind eight bytes, and a parity packet nothing.
pub open spec fn carried(packet: Seq<u8>) -> Seq<Seq<u8>> {
    if packet.len() >= 8 && packet[4] == 0xf1 && packet[5] == 0 {
        seq![packet.skip(8)]
    } else {
        Seq::empty()
    }
}

/// KCP was handed these packets one after the other: all of them if nothing failed, and
/// nothing fails but one of them or, where acknowledgements are written at once, the
/// output.
pub open spec fn handed_over(
    machine: Kcp<UdpOutput>,
    packets: Seq<Seq<u8>>,
    acks: bool,
    after: KcpSocket,
    res: Result<bool, KcpError>,
) -> bool {
    &&& res is Ok ==> after.machine() == machine_after(machine, packets, acks) && none_fails(
        machine,
        packets,
        acks,
    )
    &&& !acks && none_fails(machine, packets, acks) ==> res is Ok
}

/// Without forward error correction, KCP is handed every datagram as it is; with it, every
/// one that is not marked.
pub proof fn law_plain_datagram_reaches_kcp(
    before: KcpSocket,
    packet: Seq<u8>,
    now_ms: u64,
    after: KcpSocket,
    res: Result<bool, KcpError>,
)
    requires
        takes_in(before, packet, now_ms, after, res),
        before@.fec is None || !is_marked(packet),
    ensures
        handed_over(before.machine(), seq![packet], before@.flush_ack_input, after, res),
        after@.fec == before@.fec,
{
    lemma_feed(before, packet, now_ms, after, res);
}

/// The steps of a marked datagram.
proof fn lemma_steps(
    before: KcpSocket,
    packet: Seq<u8>,
    now_ms: u64,
    after: KcpSocket,
    res: Result<bool, KcpError>,
)
    requires
        takes_in(before, packet, now_ms, after, res),
        before@.fec is Some,
        is_marked(packet),
    ensures
        ({
            let acks = before@.flush_ack_input;
            let (decoder, decoded) = before@.fec->0.decode(packet);
            let rebuilt = match decoded {
                Decoded::Recovered(payloads) => payloads,
                _ => Seq::empty(),
            };
            let all = carried(packet) + rebuilt;
            &&& before@.fec->0.makes_good_losses(packet) || res is Err
            &&& decoded is Recovered ==> handed_over(before.machine(), all, acks, after, res)
            &&& res is Ok ==> after@.fec == Some(decoder) && decoded is Recovered
            &&& none_fails(before.machine(), carried(packet), acks) && !acks ==> after@.fec
                == Some(decoder) && before@.fec->0.makes_good_losses(packet)
        }),
{
    let acks = before@.flush_ack_input;
    let machine = before.machine();
    let one = carried(packet);
    let (direct, first) = choose|direct: KcpSocket, first: Result<bool, KcpError>| #[trigger]
        feeds_direct(before, packet, now_ms, direct, first) && feeds_rest(
            direct,
            first,
            packet,
            now_ms,
            after,
            res,
        );
    if one.len() > 0 {
        lemma_feed(before, packet.skip(8), now_ms, direct, first);
    }
    assert(first is Ok ==> direct.machine() == machine_after(machine, one, acks) && none_fails(
        machine,
        one,
        acks,
    ));
    assert(!acks && none_fails(machine, one, acks) ==> first is Ok);
    if first is Ok {
        let ready = choose|ready: KcpSocket| #[trigger]
            collects(direct, packet, ready) && feeds_rebuilt(
                ready,
                direct@.fec->0.decode(packet).1,
                first->Ok_0,
                now_ms,
                after,
                res,
            );
        if let Decoded::Recovered(payloads) = direct@.fec->0.decode(packet).1 {
            let rest = choose|rest: Result<bool, KcpError>| #[trigger]
                feeds_all(ready, payloads, now_ms, after, rest) && res == (match rest {
                    Ok(more) => Ok::<bool, KcpError>(first->Ok_0 || more),
                    Err(_) => rest,
                });
            lemma_feed_all(ready, payloads, now_ms, after, rest);
            lemma_two_lots(machine, one, payloads, acks);
        }
    } else if let Decoded::Recovered(payloads) = before@.fec->0.decode(packet).1 {
        lemma_two_lots(machine, one, payloads, acks);
    }
}

/// `packet` is one of block `id` of an encoder with these payloads, falls into the free
/// place `i`, and makes the packets of the block that are there `data_shards` or more.
pub open spec fn completes(
    before: KcpSocket,
    packet: Seq<u8>,
    id: u32,
    i: int,
    payloads: Seq<Seq<u8>>,
) -> bool {
    &&& before@.fec is Some
    &&& {
        let decoder = before@.fec->0;
        let slots = with_packet(decoder, id, i, packet);
        &&& decoder.wf()
        &&& is_marked(packet)
        &&& belongs(packet, decoder.shard_size(), id, i)
        &&& is_free(decoder, id, i)
        &&& present_count(slots) >= decoder.data_shards
        &&& is_block(payloads, decoder.data_shards, decoder.parity_shards)
        &&& is_erasure_of(slots, block_shards(payloads, decoder.parity_shards))
    }
}

/// The payloads of those data packets of block `id` that have not come in with `packet`.
pub open spec fn lost_payloads_of(
    before: KcpSocket,
    packet: Seq<u8>,
    id: u32,
    i: int,
    payloads: Seq<Seq<u8>>,
) -> Seq<Seq<u8>> {
    let decoder = before@.fec->0;
    missing_payloads(
        payloads,
        with_packet(decoder, id, i, packet),
        decoder.data_shards as int,
    )
}

/// With the datagram that completes a block, data or parity, KCP is handed what the
/// datagram carries and then the payloads of all data packets of the block that did not
/// come in, in order; and the block is closed.
pub proof fn law_completed_block_reaches_kcp(
    before: KcpSocket,
    packet: Seq<u8>,
    now_ms: u64,
    after: KcpSocket,
    res: Result<bool, KcpError>,
    id: u32,
    i: int,
    payloads: Seq<Seq<u8>>,
)
    requires
        takes_in(before, packet, now_ms, after, res),
        completes(before, packet, id, i, payloads),
    ensures
        handed_over(
            before.machine(),
            carried(packet) + lost_payloads_of(before, packet, id, i, payloads),
            before@.flush_ack_input,
            after,
            res,
        ),
        res is Ok ==> after@.fec is Some && !after@.fec->0.sets.contains_key(id),
{
    let decoder = before@.fec->0;
    let acks = before@.flush_ack_input;
    lemma_fills_free_place(decoder, packet, id, i);
    lemma_steps(before, packet, now_ms, after, res);
    lemma_two_lots(
        before.machine(),
        carried(packet),
        lost_payloads_of(before, packet, id, i, payloads),
        acks,
    );
    assert(decoder.decode(packet) == decoder.noted(id).store(id, decoder.filled_by(packet)));
}

/// A marked datagram that falls into a free place of a block that is not too old is in the
/// decoder afterwards, as long as the block has too few packets: KCP is handed what it
/// carries, and nothing is rebuilt. If it makes them `data_shards`, the block is closed.
pub proof fn law_marked_datagram_is_collected(
    before: KcpSocket,
    packet: Seq<u8>,
    now_ms: u64,
    after: KcpSocket,
    res: Result<bool, KcpError>,
    id: u32,
    i: int,
)
    requires
        takes_in(before, packet, now_ms, after, res),
        before@.fec is Some,
        before@.fec->0.wf(),
        is_marked(packet),
        belongs(packet, before@.fec->0.shard_size(), id, i),
        is_free(before@.fec->0, id, i),
        -0x8000_0000 < id - before@.fec->0.newest < 0x8000_0000,
        before@.fec->0.newest - id <= 3 * before@.fec->0.shard_size(),
    ensures
        ({
            let decoder = before@.fec->0;
            let had: nat = if decoder.sets.contains_key(id) {
                present_count(decoder.sets[id])
            } else {
                0
            };
            &&& had + 1 < decoder.data_shards ==> handed_over(
                before.machine(),
                carried(packet),
                before@.flush_ack_input,
                after,
                res,
            )
            &&& res is Ok && had + 1 < decoder.data_shards ==> {
                &&& after@.fec is Some
                &&& after@.fec->0.sets.contains_key(id)
                &&& after@.fec->0.sets[id][i] == Some(packet.skip(6))
                &&& present_count(after@.fec->0.sets[id]) == had + 1
            }
            &&& res is Ok && had + 1 >= decoder.data_shards ==> after@.fec is Some
                && !after@.fec->0.sets.contains_key(id)
        }),
{
    law_packet_is_collected(before@.fec->0, packet, id, i);
    lemma_steps(before, packet, now_ms, after, res);
    assert(carried(packet) + Seq::<Seq<u8>>::empty() =~= carried(packet));
}

/// Of these packets, handed to the machine one after the other, number `k` is the first one
/// that fails, with the error of `res`, and none behind it was handed over.
pub open spec fn fails_at(
    machine: Kcp<UdpOutput>,
    packets: Seq<Seq<u8>>,
    k: int,
    after: KcpSocket,
    res: Result<bool, KcpError>,
) -> bool {
    let (fed, outcome) = kcp_input(machine_after(machine, packets.take(k), false), packets[k]);
    &&& 0 <= k < packets.len()
    &&& none_fails(machine, packets.take(k), false)
    &&& outcome is Err && res is Err && res->Err_0 == outcome->Err_0
    &&& !(outcome->Err_0 is ConvInconsistent)
    &&& after.machine() == fed
}

/// One packet that fails.
proof fn lemma_feed_fails(
    before: KcpSocket,
    packet: Seq<u8>,
    now_ms: u64,
    after: KcpSocket,
    res: Result<bool, KcpError>,
)
    requires
        feeds(before, packet, now_ms, after, res),
        !before@.flush_ack_input,
        res is Err,
    ensures
        fails_at(before.machine(), seq![packet], 0, after, res),
        after@.last_update_ms == before@.last_update_ms,
        after@.fec == before@.fec,
{
    let one = seq![packet];
    assert(one.take(0) =~= Seq::<Seq<u8>>::empty());
    assert(machine_after(before.machine(), one.take(0), false) == before.machine());
}

/// Packets of which one fails.
proof fn lemma_first_failure(
    before: KcpSocket,
    packets: Seq<Seq<u8>>,
    now_ms: u64,
    after: KcpSocket,
    res: Result<bool, KcpError>,
) -> (k: int)
    requires
        feeds_all(before, packets, now_ms, after, res),
        !before@.flush_ack_input,
        res is Err,
    ensures
        fails_at(before.machine(), packets, k, after, res),
    decreases packets.len(),
{
    let rest = packets.drop_last();
    let (mid, so_far) = choose|mid: KcpSocket, so_far: Result<bool, KcpError>|
        feeds_all(before, rest, now_ms, mid, so_far) && #[trigger] feeds_next(
            mid,
            so_far,
            packets.last(),
            now_ms,
            after,
            res,
        );
    if so_far is Err {
        let k = lemma_first_failure(before, rest, now_ms, mid, so_far);
        assert(rest.take(k) =~= packets.take(k));
        k
    } else {
        let k = packets.len() - 1;
        let last = choose|last: Result<bool, KcpError>| #[trigger]
            feeds(mid, packets.last(), now_ms, after, last) && match last {
                Ok(more) => res == Ok::<bool, KcpError>(so_far->Ok_0 || more),
                Err(_) => res == last,
            };
        lemma_feed_all(before, rest, now_ms, mid, so_far);
        assert(packets.take(k) =~= rest);
        k
    }
}

/// A datagram that is not marked, or for which there is no decoder, fails as KCP says.
pub proof fn law_plain_datagram_fails_as_kcp_says(
    before: KcpSocket,
    packet: Seq<u8>,
    now_ms: u64,
    after: KcpSocket,
    res: Result<bool, KcpError>,
)
    requires
        takes_in(before, packet, now_ms, after, res),
        before@.fec is None || !is_marked(packet),
        !before@.flush_ack_input,
        res is Err,
    ensures
        fails_at(before.machine(), seq![packet], 0, after, res),
        after@.last_update_ms == before@.last_update_ms,
{
    lemma_feed_fails(before, packet, now_ms, after, res);
}

/// The first failure is the end of a marked datagram. If KCP refuses what it carries, it is
/// not collected. If its block turns out to be nothing but empty shards, that is the error,
/// and what it carries was handed over. Else it is a payload that was rebuilt, and those
/// behind it are not handed over.
pub proof fn law_first_failure_ends_a_datagram(
    before: KcpSocket,
    packet: Seq<u8>,
    now_ms: u64,
    after: KcpSocket,
    res: Result<bool, KcpError>,
)
    requires
        takes_in(before, packet, now_ms, after, res),
        before@.fec is Some,
        is_marked(packet),
        !before@.flush_ack_input,
        res is Err,
    ensures
        ({
            let one = carried(packet);
            let (decoder, decoded) = before@.fec->0.decode(packet);
            let machine = before.machine();
            &&& !none_fails(machine, one, false) ==> fails_at(machine, one, 0, after, res)
                && after@.fec == before@.fec
            &&& none_fails(machine, one, false) ==> after@.fec == Some(decoder)
            &&& none_fails(machine, one, false) && !(decoded is Recovered) ==> {
                &&& after.machine() == machine_after(machine, one, false)
                &&& res->Err_0 is Fec && res->Err_0->Fec_0 is Codec
            }
            &&& none_fails(machine, one, false) && decoded is Recovered ==> exists|k: int|
             #[trigger]
                fails_at(
                    machine_after(machine, one, false),
                    decoded->Recovered_0,
                    k,
                    after,
                    res,
                )
        }),
{
    let machine = before.machine();
    let one = carried(packet);
    let (direct, first) = choose|direct: KcpSocket, first: Result<bool, KcpError>| #[trigger]
        feeds_direct(before, packet, now_ms, direct, first) && feeds_rest(
            direct,
            first,
            packet,
            now_ms,
            after,
            res,
        );
    if one.len() > 0 {
        lemma_feed(before, packet.skip(8), now_ms, direct, first);
        if first is Err {
            lemma_feed_fails(before, packet.skip(8), now_ms, direct, first);
        }
    }
    if first is Ok {
        let ready = choose|ready: KcpSocket| #[trigger]
            collects(direct, packet, ready) && feeds_rebuilt(
                ready,
                direct@.fec->0.decode(packet).1,
                first->Ok_0,
                now_ms,
                after,
                res,
            );
        if let Decoded::Recovered(payloads) = direct@.fec->0.decode(packet).1 {
            let rest = choose|rest: Result<bool, KcpError>| #[trigger]
                feeds_all(ready, payloads, now_ms, after, rest) && res == (match rest {
                    Ok(more) => Ok::<bool, KcpError>(first->Ok_0 || more),
                    Err(_) => rest,
                });
            let k = lemma_first_failure(ready, payloads, now_ms, after, rest);
            assert(fails_at(machine_after(machine, one, false), payloads, k, after, res));
            lemma_feed_all(ready, payloads, now_ms, after, rest);
        }
    }
}

} // verus!
