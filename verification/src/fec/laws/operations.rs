//! What holds of the encoder's and the decoder's operations.

use crate::codec::{is_erasure_of, present_count, rs_parity, shard_views};
use crate::error::FecError;
use crate::fec::block::{block_shards, is_block, missing_payloads};
use crate::fec::decoder::{reports, FecDecoder};
use crate::fec::encoder::{seal_parity, EncodedPackets, FecEncoder};
use crate::fec::laws::format::law_parity_packet_layout;
use crate::fec::laws::timing::{law_parity_follows_a_quick_payload, started_later};
use crate::fec::laws::window::{
    belongs, is_free, larger, law_newest_number_never_goes_back,
    law_other_blocks_are_left_in_place, law_packet_is_collected, lemma_fills_free_place,
    with_packet,
};
use crate::fec::packet::{data_packet, padded_all, parity_packet, shard_of};
use crate::fec::{data_payload, is_data_packet, is_fec_packet, is_parity_packet};
use crate::utils::{duration_nanos, elapsed_reading};
use crate::wire::le32_at;
use std::time::Duration;
use vstd::prelude::*;

verus! {

/// Decoding a packet whose place is free makes the newest block number the larger of the
/// packet's and the newest one before; puts the packet into its block, or closes that if
/// it has `data_shards` packets then; and leaves every other block in place that is no
/// more than three block sizes behind.
pub proof fn law_decoding_keeps_nearby_blocks(
    decoder: &mut FecDecoder,
    packet: &[u8],
    res: Result<Vec<Vec<u8>>, FecError>,
    id: u32,
    i: int,
    other: u32,
)
    requires
        old(decoder)@.wf(),
        call_ensures(FecDecoder::decode, (decoder, packet), res),
        belongs(packet@, old(decoder)@.shard_size(), id, i),
        is_free(old(decoder)@, id, i),
        -0x8000_0000 < id - old(decoder)@.newest < 0x8000_0000,
        old(decoder)@.newest - id <= 3 * old(decoder)@.shard_size(),
        other != id,
    ensures
        ({
            let before = old(decoder)@;
            let after = final(decoder)@;
            let had: nat = if before.sets.contains_key(id) {
                present_count(before.sets[id])
            } else {
                0
            };
            &&& after.data_shards == before.data_shards
            &&& after.parity_shards == before.parity_shards
            &&& after.newest == larger(id, before.newest)
            &&& had + 1 < before.data_shards ==> {
                &&& res is Ok && res->Ok_0@.len() == 0
                &&& after.sets.contains_key(id)
                &&& after.sets[id] == with_packet(before, id, i, packet@)
            }
            &&& had + 1 >= before.data_shards ==> !after.sets.contains_key(id)
            &&& before.sets.contains_key(other) && 0 <= larger(id, before.newest) - other <= 3
                * before.shard_size() ==> after.sets.contains_key(other)
            &&& after.sets.contains_key(other) ==> before.sets.contains_key(other)
                && after.sets[other] == before.sets[other]
        }),
{
    law_newest_number_never_goes_back(old(decoder)@, packet@);
    law_other_blocks_are_left_in_place(old(decoder)@, packet@, id, i, other);
    law_packet_is_collected(old(decoder)@, packet@, id, i);
    let after = old(decoder)@.decode(packet@).0;
    if after.sets.contains_key(id) {
        assert(after.sets[id] =~= with_packet(old(decoder)@, id, i, packet@));
    }
    if res is Ok {
        assert(shard_views(res->Ok_0@).len() == res->Ok_0@.len());
    }
}

/// Decoding the packet that makes the packets of an encoder's block `data_shards` or more
/// returns the payloads of exactly those data packets that did not come in, in order.
pub proof fn law_decoding_rebuilds_what_was_lost(
    decoder: &mut FecDecoder,
    packet: &[u8],
    res: Result<Vec<Vec<u8>>, FecError>,
    id: u32,
    i: int,
    payloads: Seq<Seq<u8>>,
)
    requires
        old(decoder)@.wf(),
        call_ensures(FecDecoder::decode, (decoder, packet), res),
        belongs(packet@, old(decoder)@.shard_size(), id, i),
        is_free(old(decoder)@, id, i),
        is_block(payloads, old(decoder)@.data_shards, old(decoder)@.parity_shards),
        ({
            let slots = with_packet(old(decoder)@, id, i, packet@);
            &&& present_count(slots) >= old(decoder)@.data_shards
            &&& is_erasure_of(slots, block_shards(payloads, old(decoder)@.parity_shards))
        }),
    ensures
        res is Ok,
        shard_views(res->Ok_0@) == missing_payloads(
            payloads,
            with_packet(old(decoder)@, id, i, packet@),
            old(decoder)@.data_shards as int,
        ),
{
    lemma_fills_free_place(old(decoder)@, packet@, id, i);
}

/// What comes of a packet depends on what was collected and on the packet alone, and the
/// packets of a run are decoded one on the state that the one before left.
pub proof fn law_decoding_goes_by_the_state(
    decoder: &mut FecDecoder,
    packet: &[u8],
    res: Result<Vec<Vec<u8>>, FecError>,
)
    requires
        call_ensures(FecDecoder::decode, (decoder, packet), res),
    ensures
        final(decoder)@ == old(decoder)@.decode(packet@).0,
        reports(res, old(decoder)@.decode(packet@).1),
        old(decoder)@.makes_good_losses(packet@),
        final(decoder).wf(),
{
}

/// Of two payloads that are encoded one after the other: where the second fills its block,
/// its data packet is followed by the parity packets of the block if it came less than half
/// a second after the first, whatever the time is, and by nothing if not; and by nothing
/// where it does not fill the block.
pub proof fn law_encoding_soon_yields_parity(
    first: &mut FecEncoder,
    earlier: &[u8],
    earlier_at: u128,
    earlier_res: Result<EncodedPackets, FecError>,
    second: &mut FecEncoder,
    payload: &[u8],
    at: u128,
    res: Result<EncodedPackets, FecError>,
)
    requires
        old(first)@.wf(),
        earlier@.len() <= 65533,
        payload@.len() <= 65533,
        call_ensures(FecEncoder::encode_at, (first, earlier, earlier_at), earlier_res),
        *old(second) == *final(first),
        call_ensures(FecEncoder::encode_at, (second, payload, at), res),
    ensures
        earlier_res is Ok && res is Ok,
        ({
            let before = old(second)@;
            let shards = before.shards.push(shard_of(payload@));
            let data = data_packet(before.next as int, payload@);
            let packets = shard_views(res->Ok_0.packets@);
            &&& shards.len() < before.data_shards ==> packets == seq![data]
            &&& shards.len() == before.data_shards && at - earlier_at >= 500_000_000 ==> packets
                == seq![data]
            &&& shards.len() == before.data_shards && at - earlier_at < 500_000_000 ==> packets
                == seq![data] + Seq::new(
                before.parity_shards,
                |j: int|
                    parity_packet(
                        before.next + 1 + j,
                        rs_parity(padded_all(shards), before.parity_shards)[j],
                    ),
            )
            &&& shards.len() == before.data_shards ==> final(second)@.shards.len() == 0
            &&& shards.len() < before.data_shards ==> final(second)@.shards == shards
        }),
{
    law_parity_follows_a_quick_payload(
        old(first)@,
        earlier@,
        earlier_at as nat,
        payload@,
        at as nat,
    );
}

/// The same payloads at times that all differ by the same amount are encoded alike: where
/// two encoders have the same state but for when their last payload came, and that and the
/// time of the next differ by the same, the same packets leave.
pub proof fn law_encoding_goes_by_the_gap(
    one: &mut FecEncoder,
    other: &mut FecEncoder,
    payload: &[u8],
    at: u128,
    later_at: u128,
    res: Result<EncodedPackets, FecError>,
    later_res: Result<EncodedPackets, FecError>,
)
    requires
        at <= later_at,
        call_ensures(FecEncoder::encode_at, (one, payload, at), res),
        call_ensures(FecEncoder::encode_at, (other, payload, later_at), later_res),
        old(other)@ == started_later(old(one)@, (later_at - at) as nat),
        payload@.len() <= 65533,
    ensures
        res is Ok && later_res is Ok,
        shard_views(later_res->Ok_0.packets@) == shard_views(res->Ok_0.packets@),
        final(other)@ == started_later(final(one)@, (later_at - at) as nat),
{
    let by = (later_at - at) as nat;
    let moved = started_later(old(one)@, by);
    assert(moved.encode(payload@, (at + by) as nat).1 =~= old(one)@.encode(payload@, at as nat).1);
}

/// A payload that does not fit the size field is an error and changes nothing; any other
/// is encoded.
pub proof fn law_only_large_payloads_are_refused(
    encoder: &mut FecEncoder,
    payload: &[u8],
    at: u128,
    res: Result<EncodedPackets, FecError>,
)
    requires
        call_ensures(FecEncoder::encode_at, (encoder, payload, at), res),
    ensures
        res is Err <==> payload@.len() > 65533,
        res is Err ==> res->Err_0 is PayloadTooLarge && final(encoder)@ == old(encoder)@,
{
}

/// The payload of a data packet is what lies behind its eight bytes, and nothing else has
/// one; the marks tell which packets are of which kind.
pub proof fn law_reading_a_packet(
    packet: &[u8],
    payload: Option<&[u8]>,
    is_data: bool,
    is_parity: bool,
    is_fec: bool,
)
    requires
        call_ensures(data_payload, (packet,), payload),
        call_ensures(is_data_packet, (packet,), is_data),
        call_ensures(is_parity_packet, (packet,), is_parity),
        call_ensures(is_fec_packet, (packet,), is_fec),
    ensures
        is_data <==> packet@.len() >= 6 && packet@[4] == 0xf1 && packet@[5] == 0,
        is_parity <==> packet@.len() >= 6 && packet@[4] == 0xf2 && packet@[5] == 0,
        is_fec <==> is_data || is_parity,
        payload is Some <==> is_data && packet@.len() >= 8,
        payload is Some ==> payload->0@ == packet@.skip(8),
{
}

/// Parity packets are numbered through from the first, and carry the parity shards in their
/// order.
pub proof fn law_sealing_parity(first: u32, parity: &Vec<Vec<u8>>, packets: Vec<Vec<u8>>, j: int)
    requires
        first + parity@.len() <= u32::MAX,
        call_ensures(seal_parity, (first, parity), packets),
        0 <= j < parity@.len(),
    ensures
        packets@.len() == parity@.len(),
        packets@[j]@.skip(6) == parity@[j]@,
        le32_at(packets@[j]@, 0) == first + j,
        packets@[j]@[4] == 0xf2 && packets@[j]@[5] == 0,
{
    law_parity_packet_layout(first + j, parity@[j]@);
    assert(shard_views(packets@).len() == packets@.len());
    assert(shard_views(packets@)[j] == packets@[j]@);
    assert(shard_views(parity@)[j] == parity@[j]@);
}

/// With the clock it is the same: of two payloads one after the other, the second of which
/// fills its block, parity follows exactly if the clock showed less than half a second
/// between them.
pub proof fn law_encoding_by_the_clock(
    first: &mut FecEncoder,
    earlier: &[u8],
    earlier_res: Result<EncodedPackets, FecError>,
    second: &mut FecEncoder,
    payload: &[u8],
    res: Result<EncodedPackets, FecError>,
)
    requires
        old(first)@.wf(),
        earlier@.len() <= 65533,
        payload@.len() <= 65533,
        call_ensures(FecEncoder::encode, (first, earlier), earlier_res),
        *old(second) == *final(first),
        call_ensures(FecEncoder::encode, (second, payload), res),
        old(second)@.shards.len() + 1 == old(second)@.data_shards,
    ensures
        earlier_res is Ok && res is Ok,
        exists|then: Duration, now: Duration|
            #![trigger elapsed_reading(old(first).clock(), then), elapsed_reading(
                old(first).clock(),
                now,
            )]
            {
                let gap = duration_nanos(now) - duration_nanos(then);
                &&& elapsed_reading(old(first).clock(), then)
                &&& elapsed_reading(old(first).clock(), now)
                &&& gap < 500_000_000 ==> res->Ok_0.packets@.len() == 1 + old(
                    second,
                )@.parity_shards
                &&& gap >= 500_000_000 ==> res->Ok_0.packets@.len() == 1
                &&& shard_views(res->Ok_0.packets@)[0] == data_packet(
                    old(second)@.next as int,
                    payload@,
                )
            },
{
    let clock = old(first).clock();
    let then = choose|elapsed: Duration| #[trigger]
        elapsed_reading(clock, elapsed) && (
            final(first)@,
            shard_views(earlier_res->Ok_0.packets@),
        ) == old(first)@.encode(earlier@, duration_nanos(elapsed));
    let now = choose|elapsed: Duration| #[trigger]
        elapsed_reading(clock, elapsed) && (
            final(second)@,
            shard_views(res->Ok_0.packets@),
        ) == old(second)@.encode(payload@, duration_nanos(elapsed));
    assert(elapsed_reading(old(first).clock(), then));
    assert(old(second).clock() == clock);
    assert(elapsed_reading(old(first).clock(), now));
    law_parity_follows_a_quick_payload(
        old(first)@,
        earlier@,
        duration_nanos(then),
        payload@,
        duration_nanos(now),
    );
    assert(shard_views(res->Ok_0.packets@).len() == res->Ok_0.packets@.len());
}

} // verus!
