//! Which blocks a decoder keeps while packets of several blocks come in.

use crate::codec::{longest, present_count};
use crate::fec::block::{block_shards, is_block, missing_payloads};
use crate::fec::decoder::{Decoded, DecoderState};
use crate::fec::encoder::{lemma_within_block, EncoderState};
use crate::fec::laws::timing::law_last_gap_decides_on_parity;
use crate::fec::laws::{
    arrived, block_packet, block_packets, decode_run, encode_run, is_choice, lemma_arrive,
    lemma_block_packet, lemma_no_shards_count,
};
use crate::fec::packet::{lemma_longest_bounds, paws_of, FEC_HEADER_SIZE};
use crate::wire::le32_at;
use vstd::prelude::*;

verus! {

/// The larger of two block numbers.
pub open spec fn larger(a: u32, b: u32) -> u32 {
    if a >= b {
        a
    } else {
        b
    }
}

/// `packet` is the packet at place `i` of block `id`, in blocks of `size` packets.
pub open spec fn belongs(packet: Seq<u8>, size: int, id: u32, i: int) -> bool {
    &&& packet.len() >= 6
    &&& 0 <= i < size
    &&& le32_at(packet, 0) == id * size + i
    &&& (id + 1) * size <= 0xffff_ffff
}

/// Nothing is there yet at place `i` of block `id`.
pub open spec fn is_free(decoder: DecoderState, id: u32, i: int) -> bool {
    decoder.sets.contains_key(id) ==> decoder.sets[id][i] is None
}

/// What is there of block `id` once `packet` is at place `i`.
pub open spec fn with_packet(
    decoder: DecoderState,
    id: u32,
    i: int,
    packet: Seq<u8>,
) -> Seq<Option<Seq<u8>>> {
    Seq::new(
        (decoder.data_shards + decoder.parity_shards) as nat,
        |k: int|
            if k == i {
                Some(packet.skip(6))
            } else if decoder.sets.contains_key(id) {
                decoder.sets[id][k]
            } else {
                None
            },
    )
}

/// Whole blocks of numbers that 32 bits hold are all in use.
pub proof fn lemma_whole_blocks_are_used(size: int, blocks: int)
    requires
        0 < size <= 256,
        blocks * size <= 0xffff_ffff,
    ensures
        blocks * size <= paws_of(size),
{
    let q: int = 0xffff_ffffint / size;
    vstd::arithmetic::div_mod::lemma_fundamental_div_mod(0xffff_ffff, size);
    assert(blocks * size <= q * size) by (nonlinear_arith)
        requires
            0xffff_ffff == size * q + 0xffff_ffffint % size,
            0xffff_ffffint % size < size,
            blocks * size <= 0xffff_ffff,
            size > 0,
    ;
}

/// Where a decoder puts a packet.
proof fn lemma_belongs(decoder: DecoderState, packet: Seq<u8>, id: u32, i: int)
    requires
        decoder.wf(),
        belongs(packet, decoder.shard_size(), id, i),
    ensures
        le32_at(packet, 0) < paws_of(decoder.shard_size()),
        decoder.place_of(le32_at(packet, 0)) == (id, i),
{
    let size = decoder.shard_size();
    let seq = le32_at(packet, 0);
    lemma_whole_blocks_are_used(size, id + 1);
    assert(seq < (id + 1) * size) by (nonlinear_arith)
        requires
            seq == id * size + i,
            i < size,
    ;
    vstd::arithmetic::div_mod::lemma_fundamental_div_mod_converse(seq, size, id as int, i);
}

/// A packet that belongs into a free place is taken there.
pub proof fn lemma_fills_free_place(decoder: DecoderState, packet: Seq<u8>, id: u32, i: int)
    requires
        decoder.wf(),
        belongs(packet, decoder.shard_size(), id, i),
        is_free(decoder, id, i),
    ensures
        decoder.takes(packet),
        decoder.place_of(le32_at(packet, 0)) == (id, i),
        decoder.filled_by(packet) == with_packet(decoder, id, i, packet),
{
    lemma_belongs(decoder, packet, id, i);
    assert(decoder.filled_by(packet) =~= with_packet(decoder, id, i, packet));
}

/// The newest block number never goes back. With a packet that is taken it becomes the
/// larger of the packet's block number and the newest number before, for numbers less
/// than half the circle apart; and no packet makes it anything else than one of the two.
pub proof fn law_newest_number_never_goes_back(decoder: DecoderState, packet: Seq<u8>)
    requires
        decoder.wf(),
    ensures
        decoder.decode(packet).0.newest >= decoder.newest,
        forall|id: u32, i: int| #[trigger]
            belongs(packet, decoder.shard_size(), id, i) && is_free(decoder, id, i) && -0x8000_0000
                < id - decoder.newest < 0x8000_0000 ==> decoder.decode(packet).0.newest == larger(
                id,
                decoder.newest,
            ),
        forall|id: u32, i: int| #[trigger]
            belongs(packet, decoder.shard_size(), id, i) ==> decoder.decode(packet).0.newest == id
                || decoder.decode(packet).0.newest == decoder.newest,
        forall|id: u32, i: int| #[trigger]
            belongs(packet, decoder.shard_size(), id, i) && id - decoder.newest >= 0x8000_0000
                ==> decoder.decode(packet).0.newest == decoder.newest,
{
    assert forall|id: u32, i: int| #[trigger]
        belongs(packet, decoder.shard_size(), id, i) implies (is_free(decoder, id, i)
        && -0x8000_0000 < id - decoder.newest < 0x8000_0000 ==> decoder.decode(packet).0.newest
        == larger(id, decoder.newest)) && (decoder.decode(packet).0.newest == id || decoder.decode(
        packet,
    ).0.newest == decoder.newest) && (id - decoder.newest >= 0x8000_0000 ==> decoder.decode(
        packet,
    ).0.newest == decoder.newest) by {
        lemma_belongs(decoder, packet, id, i);
    }
}

/// A packet of one block leaves what was collected of any other block in place, as long as
/// that block is no more than three block sizes behind the largest number seen; and it puts
/// nothing into another block.
pub proof fn law_other_blocks_are_left_in_place(
    decoder: DecoderState,
    packet: Seq<u8>,
    id: u32,
    i: int,
    other: u32,
)
    requires
        decoder.wf(),
        belongs(packet, decoder.shard_size(), id, i),
        other != id,
        -0x8000_0000 < id - decoder.newest < 0x8000_0000,
    ensures
        ({
            let after = decoder.decode(packet).0;
            let size = decoder.data_shards + decoder.parity_shards;
            &&& decoder.sets.contains_key(other) && 0 <= larger(id, decoder.newest) - other <= 3
                * size ==> after.sets.contains_key(other)
            &&& after.sets.contains_key(other) ==> decoder.sets.contains_key(other)
                && after.sets[other] == decoder.sets[other]
        }),
{
    lemma_belongs(decoder, packet, id, i);
}

/// A block that has fallen further behind the newest one than three block sizes is dropped
/// with the next packet that is taken, unless that packet completes a block of empty shards.
pub proof fn law_blocks_far_behind_are_dropped(
    decoder: DecoderState,
    packet: Seq<u8>,
    id: u32,
    i: int,
    other: u32,
)
    requires
        decoder.wf(),
        belongs(packet, decoder.shard_size(), id, i),
        is_free(decoder, id, i),
        decoder.decode(packet).1 is Recovered,
        decoder.decode(packet).0.newest - other > 3 * (decoder.data_shards + decoder.parity_shards),
    ensures
        !decoder.decode(packet).0.sets.contains_key(other),
{
    lemma_belongs(decoder, packet, id, i);
}

/// A packet whose place is free is put there while its block has too few packets, what
/// else has come in of the block stays, and nothing is rebuilt. The packet that makes them
/// `data_shards` closes the block.
pub proof fn law_packet_is_collected(decoder: DecoderState, packet: Seq<u8>, id: u32, i: int)
    requires
        decoder.wf(),
        belongs(packet, decoder.shard_size(), id, i),
        is_free(decoder, id, i),
        -0x8000_0000 < id - decoder.newest < 0x8000_0000,
        decoder.newest - id <= 3 * (decoder.data_shards + decoder.parity_shards),
    ensures
        ({
            let (after, decoded) = decoder.decode(packet);
            let had: nat = if decoder.sets.contains_key(id) {
                present_count(decoder.sets[id])
            } else {
                0
            };
            &&& had + 1 < decoder.data_shards ==> {
                &&& decoded == Decoded::Recovered(Seq::empty())
                &&& after.sets.contains_key(id)
                &&& after.sets[id].len() == decoder.data_shards + decoder.parity_shards
                &&& after.sets[id][i] == Some(packet.skip(6))
                &&& present_count(after.sets[id]) == had + 1
                &&& forall|k: int|
                    0 <= k < after.sets[id].len() && k != i ==> #[trigger] after.sets[id][k] == (
                    if decoder.sets.contains_key(id) {
                        decoder.sets[id][k]
                    } else {
                        None
                    })
            }
            &&& had + 1 >= decoder.data_shards ==> !after.sets.contains_key(id)
        }),
{
    lemma_belongs(decoder, packet, id, i);
    let slots = decoder.slots(id);
    if !decoder.sets.contains_key(id) {
        lemma_no_shards_count(slots);
    }
    crate::fec::laws::lemma_present_update(slots, i, packet.skip(FEC_HEADER_SIZE as int));
    let filled = slots.update(i, Some(packet.skip(FEC_HEADER_SIZE as int)));
    let (after, decoded) = decoder.decode(packet);
    assert(decoder.decode(packet) == decoder.noted(id).store(id, filled));
    assert(decoder.noted(id).recent(id));
    if present_count(filled) < decoder.data_shards {
        assert(after.sets[id] == filled);
    }
}

/// A block that closes with all its data packets there rebuilds nothing. One that closes
/// with data packets missing, and nothing but empty shards there, is an error; with other
/// shards it is none.
pub proof fn law_what_a_closing_block_gives(
    decoder: DecoderState,
    packet: Seq<u8>,
    id: u32,
    i: int,
)
    requires
        decoder.wf(),
        belongs(packet, decoder.shard_size(), id, i),
        is_free(decoder, id, i),
        present_count(with_packet(decoder, id, i, packet)) >= decoder.data_shards,
    ensures
        ({
            let slots = with_packet(decoder, id, i, packet);
            let complete = forall|k: int|
                0 <= k < decoder.data_shards ==> (#[trigger] slots[k]) is Some;
            let empty = forall|k: int|
                0 <= k < slots.len() && slots[k] is Some ==> (#[trigger] slots[k])->0.len() == 0;
            let decoded = decoder.decode(packet).1;
            &&& complete ==> decoded == Decoded::Recovered(Seq::empty())
            &&& !complete && empty ==> decoded == Decoded::Undecodable && decoder.decode(
                packet,
            ).0.sets == decoder.sets.remove(id)
            &&& !complete && !empty ==> decoded is Recovered
        }),
{
    lemma_fills_free_place(decoder, packet, id, i);
    let slots = with_packet(decoder, id, i, packet);
    lemma_longest_bounds(slots);
    assert(decoder.decode(packet) == decoder.noted(id).store(id, slots));
    let empty = forall|k: int|
        0 <= k < slots.len() && slots[k] is Some ==> (#[trigger] slots[k])->0.len() == 0;
    if longest(slots) > 0 {
        let k = choose|k: int|
            0 <= k < slots.len() && slots[k] is Some && (#[trigger] slots[k])->0.len() == longest(
                slots,
            );
        assert(!empty);
    }
}

/// A packet whose place is taken changes nothing and rebuilds nothing, and neither does one
/// with a number behind the last whole block of numbers. A packet without a header is an
/// error and changes nothing.
pub proof fn law_packet_out_of_place_changes_nothing(decoder: DecoderState, packet: Seq<u8>)
    requires
        decoder.wf(),
    ensures
        packet.len() < 6 ==> decoder.decode(packet) == (decoder, Decoded::TooShort),
        forall|id: u32, i: int| #[trigger]
            belongs(packet, decoder.shard_size(), id, i) && !is_free(decoder, id, i)
                ==> decoder.decode(packet) == (decoder, Decoded::Recovered(Seq::empty())),
        packet.len() >= 6 && (block_number(packet, decoder.shard_size()) + 1)
            * decoder.shard_size() > 0xffff_ffff ==> decoder.decode(packet) == (
            decoder,
            Decoded::Recovered(Seq::empty()),
        ),
{
    let size = decoder.shard_size();
    assert forall|id: u32, i: int| #[trigger] belongs(packet, size, id, i) && !is_free(
        decoder,
        id,
        i,
    ) implies decoder.decode(packet) == (decoder, Decoded::Recovered(Seq::empty())) by {
        lemma_belongs(decoder, packet, id, i);
    }
    if packet.len() >= 6 && (block_number(packet, size) + 1) * size > 0xffff_ffff {
        let seq = le32_at(packet, 0);
        let q: int = 0xffff_ffffint / size;
        vstd::arithmetic::div_mod::lemma_fundamental_div_mod(0xffff_ffff, size);
        vstd::arithmetic::div_mod::lemma_fundamental_div_mod(seq, size);
        assert(seq >= q * size) by (nonlinear_arith)
            requires
                0xffff_ffff == size * q + 0xffff_ffffint % size,
                0xffff_ffffint % size < size,
                0 <= 0xffff_ffffint % size,
                seq == size * (seq / size) + seq % size,
                0 <= seq % size < size,
                (seq / size + 1) * size > 0xffff_ffff,
                size > 0,
        ;
    }
}

/// The block number that `packet` carries, in blocks of `size` packets.
pub open spec fn block_number(packet: Seq<u8>, size: int) -> int {
    le32_at(packet, 0) / size
}

/// The places in block `id` of those of `packets` that belong to it, as they come in.
pub open spec fn places_in(packets: Seq<Seq<u8>>, size: int, id: u32) -> Seq<int>
    decreases packets.len(),
{
    if packets.len() == 0 {
        Seq::empty()
    } else {
        let before = places_in(packets.drop_last(), size, id);
        let last = packets.last();
        if last.len() >= 6 && block_number(last, size) == id {
            before.push(le32_at(last, 0) % size)
        } else {
            before
        }
    }
}

/// Packets of block `id` with these payloads, and between them others, of blocks that are
/// no further ahead than three block sizes.
pub open spec fn mixed(
    packets: Seq<Seq<u8>>,
    payloads: Seq<Seq<u8>>,
    parity: nat,
    id: u32,
) -> bool {
    let size = (payloads.len() + parity) as int;
    forall|k: int|
        0 <= k < packets.len() && packets[k].len() >= 6 ==> {
            &&& block_number(#[trigger] packets[k], size) <= id + 3 * size
            &&& block_number(packets[k], size) == id ==> packets[k] == block_packet(
                payloads,
                parity,
                id,
                le32_at(packets[k], 0) % size,
            )
        }
}

/// The block `id` while it fills, whatever else comes in between.
proof fn lemma_collect_among_others(
    decoder: DecoderState,
    payloads: Seq<Seq<u8>>,
    id: u32,
    packets: Seq<Seq<u8>>,
)
    requires
        is_block(payloads, decoder.data_shards, decoder.parity_shards),
        (id + 1) * decoder.shard_size() <= 0xffff_ffff,
        !decoder.sets.contains_key(id),
        id - decoder.newest < 0x8000_0000,
        decoder.newest <= id + 3 * decoder.shard_size(),
        mixed(packets, payloads, decoder.parity_shards, id),
        ({
            let order = places_in(packets, decoder.shard_size(), id);
            is_choice(order, order.len(), decoder.shard_size()) && order.len()
                < decoder.data_shards
        }),
    ensures
        ({
            let after = decode_run(decoder, packets).0;
            let order = places_in(packets, decoder.shard_size(), id);
            &&& after.data_shards == decoder.data_shards
            &&& after.parity_shards == decoder.parity_shards
            &&& decoder.newest <= after.newest <= id + 3 * decoder.shard_size()
            &&& order.len() > 0 ==> after.newest >= id
            &&& after.slots(id) == arrived(block_shards(payloads, decoder.parity_shards), order)
            &&& present_count(after.slots(id)) == order.len()
            &&& order.len() == 0 ==> !after.sets.contains_key(id)
        }),
    decreases packets.len(),
{
    let size = decoder.shard_size();
    let shards = block_shards(payloads, decoder.parity_shards);
    let order = places_in(packets, size, id);
    lemma_whole_blocks_are_used(size, id + 1);
    if packets.len() == 0 {
        assert(decoder.slots(id) =~= arrived(shards, order));
        lemma_no_shards_count(decoder.slots(id));
    } else {
        let rest = packets.drop_last();
        let last = packets.last();
        let earlier = places_in(rest, size, id);
        assert(last == packets[packets.len() - 1]);
        assert forall|k: int| 0 <= k < rest.len() && rest[k].len() >= 6 implies {
            &&& block_number(#[trigger] rest[k], size) <= id + 3 * size
            &&& block_number(rest[k], size) == id ==> rest[k] == block_packet(
                payloads,
                decoder.parity_shards,
                id,
                le32_at(rest[k], 0) % size,
            )
        } by {
            assert(rest[k] == packets[k]);
        }
        assert(earlier.len() <= order.len());
        assert forall|k: int| 0 <= k < earlier.len() implies earlier[k] == #[trigger] order[k] by {
        }
        assert(is_choice(earlier, earlier.len(), size)) by {
            assert forall|k: int| 0 <= k < earlier.len() implies 0 <= #[trigger] earlier[k]
                < size by {
                assert(earlier[k] == order[k]);
            }
            assert forall|j: int, k: int|
                0 <= j < earlier.len() && 0 <= k < earlier.len() && j != k implies earlier[j]
                != earlier[k] by {
                assert(earlier[j] == order[j] && earlier[k] == order[k]);
            }
        }
        lemma_collect_among_others(decoder, payloads, id, rest);
        let before = decode_run(decoder, rest).0;
        let (after, decoded) = before.decode(last);
        assert(decode_run(decoder, packets).0 == after);
        let seq = le32_at(last, 0);
        let (number, place) = before.place_of(seq);
        if last.len() >= 6 {
            assert(0 <= seq / size <= seq) by (nonlinear_arith)
                requires
                    seq >= 0,
                    size > 0,
            ;
            assert(number == block_number(last, size));
            if number == id {
                assert(order.drop_last() =~= earlier);
                assert(order.last() == seq % size);
                lemma_arrive(before, payloads, id, order);
                let slots = before.filled_by(last);
                let noted = before.noted(id);
                assert(after == noted.with(id, slots).expired());
                assert(noted.recent(id));
                assert(after.sets.contains_key(id));
                assert(after.slots(id) == slots);
            } else if before.takes(last) {
                let noted = before.noted(number);
                if before.sets.contains_key(id) {
                    assert(noted.recent(id));
                    assert(after.sets.contains_key(id));
                }
                assert(after.slots(id) =~= before.slots(id));
            }
        }
    }
}

/// Any `data_shards` packets of a block rebuild the rest of it, also if packets of nearby
/// blocks, repeated or broken ones among them, come in between: with the last of them, the
/// payloads of exactly those data packets that did not come in are rebuilt, in their order.
///
/// Nearby are blocks that are no further ahead than three block sizes, and any that are
/// behind.
pub proof fn law_packets_between_do_no_harm(
    decoder: DecoderState,
    payloads: Seq<Seq<u8>>,
    id: u32,
    packets: Seq<Seq<u8>>,
)
    requires
        is_block(payloads, decoder.data_shards, decoder.parity_shards),
        (id + 1) * decoder.shard_size() <= 0xffff_ffff,
        !decoder.sets.contains_key(id),
        id - decoder.newest < 0x8000_0000,
        decoder.newest <= id + 3 * decoder.shard_size(),
        mixed(packets, payloads, decoder.parity_shards, id),
        is_choice(
            places_in(packets, decoder.shard_size(), id),
            decoder.data_shards,
            decoder.shard_size(),
        ),
        packets.last().len() >= 6,
        block_number(packets.last(), decoder.shard_size()) == id,
        decode_run(decoder, packets.drop_last()).0.makes_good_losses(packets.last()),
    ensures
        decode_run(decoder, packets.drop_last()).0.decode(packets.last()).1 == Decoded::Recovered(
            missing_payloads(
                payloads,
                arrived(
                    block_shards(payloads, decoder.parity_shards),
                    places_in(packets, decoder.shard_size(), id),
                ),
                decoder.data_shards as int,
            ),
        ),
{
    let size = decoder.shard_size();
    let order = places_in(packets, size, id);
    let rest = packets.drop_last();
    let last = packets.last();
    assert(packets.len() > 0);
    let earlier = places_in(rest, size, id);
    assert(order.drop_last() =~= earlier);
    assert(last == packets[packets.len() - 1]);
    assert(mixed(rest, payloads, decoder.parity_shards, id)) by {
        assert forall|k: int| 0 <= k < rest.len() && rest[k].len() >= 6 implies {
            &&& block_number(#[trigger] rest[k], size) <= id + 3 * size
            &&& block_number(rest[k], size) == id ==> rest[k] == block_packet(
                payloads,
                decoder.parity_shards,
                id,
                le32_at(rest[k], 0) % size,
            )
        } by {
            assert(rest[k] == packets[k]);
        }
    }
    assert(is_choice(earlier, earlier.len(), size)) by {
        assert forall|k: int| 0 <= k < earlier.len() implies 0 <= #[trigger] earlier[k] < size by {
            assert(earlier[k] == order[k]);
        }
    }
    lemma_collect_among_others(decoder, payloads, id, rest);
    lemma_whole_blocks_are_used(size, id + 1);
    lemma_arrive(decode_run(decoder, rest).0, payloads, id, order);
}

/// What an encoder sends of a block reaches the other side as long as any `data_shards` of
/// its packets do: take the payloads of a block, the last one less than half a second after
/// the one before it, encode them, lose any packets, reorder them and mix them with packets
/// of nearby blocks. With the last of the packets that come through, a decoder that has seen
/// nothing of the block rebuilds exactly the payloads whose data packets were lost.
pub proof fn law_losses_are_made_good_among_other_blocks(
    encoder: EncoderState,
    payloads: Seq<Seq<u8>>,
    times: Seq<nat>,
    decoder: DecoderState,
    id: u32,
    packets: Seq<Seq<u8>>,
)
    requires
        encoder.wf(),
        encoder.shards.len() == 0,
        encoder.data_shards >= 2,
        times.len() == payloads.len(),
        times[times.len() - 1] - times[times.len() - 2] < 500_000_000,
        is_block(payloads, encoder.data_shards, encoder.parity_shards),
        decoder.data_shards == encoder.data_shards,
        decoder.parity_shards == encoder.parity_shards,
        encoder.next == id * decoder.shard_size(),
        !decoder.sets.contains_key(id),
        id - decoder.newest < 0x8000_0000,
        decoder.newest <= id + 3 * decoder.shard_size(),
        forall|k: int|
            0 <= k < packets.len() && packets[k].len() >= 6 ==> {
                &&& block_number(#[trigger] packets[k], decoder.shard_size()) <= id + 3
                    * decoder.shard_size()
                &&& block_number(packets[k], decoder.shard_size()) == id ==> encode_run(
                    encoder,
                    payloads,
                    times,
                ).1.contains(packets[k])
            },
        is_choice(
            places_in(packets, decoder.shard_size(), id),
            decoder.data_shards,
            decoder.shard_size(),
        ),
        packets.last().len() >= 6,
        block_number(packets.last(), decoder.shard_size()) == id,
        decode_run(decoder, packets.drop_last()).0.makes_good_losses(packets.last()),
    ensures
        decode_run(decoder, packets.drop_last()).0.decode(packets.last()).1 == Decoded::Recovered(
            missing_payloads(
                payloads,
                arrived(
                    block_shards(payloads, decoder.parity_shards),
                    places_in(packets, decoder.shard_size(), id),
                ),
                decoder.data_shards as int,
            ),
        ),
{
    let size = decoder.shard_size();
    let parity = decoder.parity_shards;
    let first = encoder.next as int;
    law_last_gap_decides_on_parity(encoder, payloads, times);
    lemma_within_block(first, 0, size);
    vstd::arithmetic::div_mod::lemma_fundamental_div_mod_converse(first, size, id as int, 0);
    let sent = encode_run(encoder, payloads, times).1;
    let block = block_packets(payloads, parity, id);
    assert(sent == block);
    assert((id + 1) * size == first + size) by (nonlinear_arith)
        requires
            first == id * size,
    ;
    assert forall|k: int| 0 <= k < packets.len() && packets[k].len() >= 6 implies {
        &&& block_number(#[trigger] packets[k], size) <= id + 3 * size
        &&& block_number(packets[k], size) == id ==> packets[k] == block_packet(
            payloads,
            parity,
            id,
            le32_at(packets[k], 0) % size,
        )
    } by {
        if block_number(packets[k], size) == id {
            assert(block.contains(packets[k]));
            let i = choose|i: int| 0 <= i < block.len() && block[i] == packets[k];
            lemma_block_packet(decoder, payloads, id, i);
        }
    }
    law_packets_between_do_no_harm(decoder, payloads, id, packets);
}

} // verus!
