//! What encoder and decoder achieve together.

use crate::codec::{is_erasure_of, present_count};
use crate::fec::block::{block_shards, is_block, missing_payloads, parity_shards_of, shards_of};
use crate::fec::decoder::{age, Decoded, DecoderState, MAX_SHARD_SETS};
use crate::fec::encoder::{lemma_within_block, EncoderState};
use crate::fec::packet::{
    data_packet, header, parity_packet, paws_of, shard_of, FEC_HEADER_SIZE, TYPE_DATA,
    TYPE_PARITY,
};
use crate::wire::{le32_at, le32_bytes, lemma_le32_roundtrip};
use vstd::prelude::*;

pub mod format;
pub mod operations;
pub mod timing;
pub mod window;

verus! {

/// The packet at place `i` of block number `id`.
pub open spec fn block_packet(payloads: Seq<Seq<u8>>, parity: nat, id: u32, i: int) -> Seq<u8> {
    let seq = id * (payloads.len() + parity) + i;
    if i < payloads.len() {
        data_packet(seq, payloads[i])
    } else {
        parity_packet(seq, parity_shards_of(payloads, parity)[i - payloads.len()])
    }
}

/// All packets of block number `id`, in order.
pub open spec fn block_packets(payloads: Seq<Seq<u8>>, parity: nat, id: u32) -> Seq<Seq<u8>> {
    Seq::new(payloads.len() + parity, |i: int| block_packet(payloads, parity, id, i))
}

/// The state and the packets after these payloads came one after the other, each at
/// its time.
pub open spec fn encode_run(
    encoder: EncoderState,
    payloads: Seq<Seq<u8>>,
    times: Seq<nat>,
) -> (EncoderState, Seq<Seq<u8>>)
    decreases payloads.len(),
{
    if payloads.len() == 0 {
        (encoder, Seq::empty())
    } else {
        let (before, sent) = encode_run(encoder, payloads.drop_last(), times.drop_last());
        let (after, packets) = before.encode(payloads.last(), times.last());
        (after, sent + packets)
    }
}

/// The payloads that a packet made it possible to rebuild.
pub open spec fn rebuilt_payloads(decoded: Decoded) -> Seq<Seq<u8>> {
    match decoded {
        Decoded::Recovered(payloads) => payloads,
        _ => Seq::empty(),
    }
}

/// The state after these packets came in, and all payloads that were rebuilt.
pub open spec fn decode_run(decoder: DecoderState, packets: Seq<Seq<u8>>) -> (
    DecoderState,
    Seq<Seq<u8>>,
)
    decreases packets.len(),
{
    if packets.len() == 0 {
        (decoder, Seq::empty())
    } else {
        let (before, payloads) = decode_run(decoder, packets.drop_last());
        let (after, decoded) = before.decode(packets.last());
        (after, payloads + rebuilt_payloads(decoded))
    }
}

/// A block of which the packets at the places `order` have come in.
pub open spec fn arrived(shards: Seq<Seq<u8>>, order: Seq<int>) -> Seq<Option<Seq<u8>>> {
    Seq::new(
        shards.len(),
        |i: int|
            if order.contains(i) {
                Some(shards[i])
            } else {
                None
            },
    )
}

/// Those elements of `packets` at the places `order`, in that order.
pub open spec fn picked(packets: Seq<Seq<u8>>, order: Seq<int>) -> Seq<Seq<u8>> {
    Seq::new(order.len(), |k: int| packets[order[k]])
}

/// `order` names `count` different places out of `places`.
pub open spec fn is_choice(order: Seq<int>, count: nat, places: int) -> bool {
    &&& order.len() == count
    &&& order.no_duplicates()
    &&& forall|k: int| 0 <= k < order.len() ==> 0 <= #[trigger] order[k] < places
}

/// One more shard is one more.
pub(crate) proof fn lemma_present_update(slots: Seq<Option<Seq<u8>>>, i: int, shard: Seq<u8>)
    requires
        0 <= i < slots.len(),
        slots[i] is None,
    ensures
        present_count(slots.update(i, Some(shard))) == present_count(slots) + 1,
    decreases slots.len(),
{
    let updated = slots.update(i, Some(shard));
    if i == slots.len() - 1 {
        assert(updated.drop_last() =~= slots.drop_last());
    } else {
        lemma_present_update(slots.drop_last(), i, shard);
        assert(updated.drop_last() =~= slots.drop_last().update(i, Some(shard)));
    }
}

/// Nothing is there in a block of which nothing has come in.
pub(crate) proof fn lemma_no_shards_count(slots: Seq<Option<Seq<u8>>>)
    requires
        forall|i: int| 0 <= i < slots.len() ==> (#[trigger] slots[i]) is None,
    ensures
        present_count(slots) == 0,
    decreases slots.len(),
{
    if slots.len() > 0 {
        assert(slots[slots.len() - 1] is None);
        assert forall|i: int| 0 <= i < slots.drop_last().len() implies (
        #[trigger] slots.drop_last()[i]) is None by {
            assert(slots[i] is None);
        }
        lemma_no_shards_count(slots.drop_last());
    }
}

/// What a decoder reads in a packet of a block.
pub(crate) proof fn lemma_block_packet(
    decoder: DecoderState,
    payloads: Seq<Seq<u8>>,
    id: u32,
    i: int,
)
    requires
        is_block(payloads, decoder.data_shards, decoder.parity_shards),
        (id + 1) * decoder.shard_size() <= paws_of(decoder.shard_size()),
        0 <= i < decoder.shard_size(),
    ensures
        ({
            let packet = block_packet(payloads, decoder.parity_shards, id, i);
            &&& packet.len() >= FEC_HEADER_SIZE
            &&& le32_at(packet, 0) < paws_of(decoder.shard_size())
            &&& decoder.place_of(le32_at(packet, 0)) == (id, i)
            &&& packet.skip(FEC_HEADER_SIZE as int) == block_shards(
                payloads,
                decoder.parity_shards,
            )[i]
        }),
{
    let size = decoder.shard_size();
    let seq = id * size + i;
    let packet = block_packet(payloads, decoder.parity_shards, id, i);
    let flag = if i < payloads.len() {
        TYPE_DATA
    } else {
        TYPE_PARITY
    };
    let shard = block_shards(payloads, decoder.parity_shards)[i];
    assert(packet =~= header(seq, flag) + shard);
    assert(0 <= seq && seq < (id + 1) * size) by (nonlinear_arith)
        requires
            seq == id * size + i,
            0 <= i < size,
            id >= 0,
    ;
    crate::fec::packet::lemma_paws_positive(size);
    lemma_le32_roundtrip(seq);
    assert(forall|k: int| 0 <= k < 4 ==> #[trigger] packet[k] == le32_bytes(seq)[k]);
    assert(le32_at(packet, 0) == seq);
    vstd::arithmetic::div_mod::lemma_fundamental_div_mod_converse(seq, size, id as int, i);
    assert(packet.skip(FEC_HEADER_SIZE as int) =~= shard);
}

/// The state of a decoder while the packets of one block come in, before there are
/// enough of them.
proof fn lemma_collect(
    decoder: DecoderState,
    payloads: Seq<Seq<u8>>,
    id: u32,
    order: Seq<int>,
)
    requires
        is_block(payloads, decoder.data_shards, decoder.parity_shards),
        (id + 1) * decoder.shard_size() <= paws_of(decoder.shard_size()),
        !decoder.sets.contains_key(id),
        decoder.noted(id).recent(id),
        is_choice(order, order.len(), decoder.shard_size()),
        order.len() < decoder.data_shards,
    ensures
        ({
            let packets = picked(
                block_packets(payloads, decoder.parity_shards, id),
                order,
            );
            let (after, rebuilt) = decode_run(decoder, packets);
            let shards = block_shards(payloads, decoder.parity_shards);
            &&& rebuilt == Seq::<Seq<u8>>::empty()
            &&& after.data_shards == decoder.data_shards
            &&& after.parity_shards == decoder.parity_shards
            &&& after.noted(id).newest == decoder.noted(id).newest
            &&& after.slots(id) == arrived(shards, order)
            &&& present_count(after.slots(id)) == order.len()
        }),
    decreases order.len(),
{
    let all = block_packets(payloads, decoder.parity_shards, id);
    let packets = picked(all, order);
    let shards = block_shards(payloads, decoder.parity_shards);
    if order.len() == 0 {
        assert(decoder.slots(id) =~= arrived(shards, order));
        lemma_no_shards_count(decoder.slots(id));
    } else {
        let rest = order.drop_last();
        let last = order.last();
        assert(rest.no_duplicates());
        assert(is_choice(rest, rest.len(), decoder.shard_size())) by {
            assert forall|k: int| 0 <= k < rest.len() implies 0 <= #[trigger] rest[k]
                < decoder.shard_size() by {
                assert(rest[k] == order[k]);
            }
        }
        lemma_collect(decoder, payloads, id, rest);
        assert(packets.drop_last() =~= picked(all, rest));
        let (before, sent) = decode_run(decoder, packets.drop_last());
        assert(0 <= order[order.len() - 1] < decoder.shard_size());
        lemma_arrive(before, payloads, id, order);
        let (after, decoded) = before.decode(packets.last());
        assert(packets.last() == block_packet(payloads, decoder.parity_shards, id, last));
        let slots = before.filled_by(packets.last());
        let noted = before.noted(id);
        assert(before.decode(packets.last()) == noted.store(id, slots));
        assert(after == noted.with(id, slots).expired());
        assert(noted.recent(id));
        assert(after.sets.contains_key(id));
        assert(after.slots(id) == slots);
    }
}

/// The next packet of a block falls into its empty place.
pub(crate) proof fn lemma_arrive(
    before: DecoderState,
    payloads: Seq<Seq<u8>>,
    id: u32,
    order: Seq<int>,
)
    requires
        is_block(payloads, before.data_shards, before.parity_shards),
        (id + 1) * before.shard_size() <= paws_of(before.shard_size()),
        order.len() > 0,
        is_choice(order, order.len(), before.shard_size()),
        before.slots(id) == arrived(
            block_shards(payloads, before.parity_shards),
            order.drop_last(),
        ),
        present_count(before.slots(id)) == order.len() - 1,
    ensures
        ({
            let packet = block_packet(payloads, before.parity_shards, id, order.last());
            let slots = before.filled_by(packet);
            &&& before.takes(packet)
            &&& before.place_of(le32_at(packet, 0)) == (id, order.last())
            &&& slots == arrived(block_shards(payloads, before.parity_shards), order)
            &&& present_count(slots) == order.len()
            &&& is_erasure_of(slots, block_shards(payloads, before.parity_shards))
        }),
{
    let rest = order.drop_last();
    let last = order.last();
    let shards = block_shards(payloads, before.parity_shards);
    let packet = block_packet(payloads, before.parity_shards, id, last);
    assert(0 <= order[order.len() - 1] < before.shard_size());
    lemma_block_packet(before, payloads, id, last);
    assert(!rest.contains(last)) by {
        if rest.contains(last) {
            let k = choose|k: int| 0 <= k < rest.len() && rest[k] == last;
            assert(order[k] == order[order.len() - 1]);
        }
    }
    assert(before.slots(id)[last] is None);
    lemma_present_update(before.slots(id), last, shards[last]);
    let slots = before.filled_by(packet);
    assert(slots =~= arrived(shards, order)) by {
        assert forall|i: int| 0 <= i < shards.len() implies order.contains(i) == (rest.contains(i)
            || i == last) by {
            if order.contains(i) {
                let k = choose|k: int| 0 <= k < order.len() && order[k] == i;
                if k < rest.len() {
                    assert(rest[k] == i);
                }
            }
            if rest.contains(i) {
                let k = choose|k: int| 0 <= k < rest.len() && rest[k] == i;
                assert(order[k] == i);
            }
            if i == last {
                assert(order[order.len() - 1] == i);
            }
        }
    }
}

/// Any `data_shards` packets of a block are enough: whichever they are and in
/// whatever order they come in, a decoder that has seen nothing of the block rebuilds
/// exactly the payloads of the data packets that are not among them, in their order.
///
/// That the block completed by the last packet is decoded soundly is what
/// `FecDecoder::decode` guarantees of every packet.
pub proof fn law_enough_packets_rebuild_the_rest(
    decoder: DecoderState,
    payloads: Seq<Seq<u8>>,
    id: u32,
    order: Seq<int>,
)
    requires
        is_block(payloads, decoder.data_shards, decoder.parity_shards),
        (id + 1) * decoder.shard_size() <= paws_of(decoder.shard_size()),
        !decoder.sets.contains_key(id),
        decoder.noted(id).recent(id),
        is_choice(order, decoder.data_shards, decoder.shard_size()),
        ({
            let packets = picked(block_packets(payloads, decoder.parity_shards, id), order);
            decode_run(decoder, packets.drop_last()).0.makes_good_losses(packets.last())
        }),
    ensures
        decode_run(
            decoder,
            picked(block_packets(payloads, decoder.parity_shards, id), order),
        ).1 == missing_payloads(
            payloads,
            arrived(block_shards(payloads, decoder.parity_shards), order),
            decoder.data_shards as int,
        ),
{
    let all = block_packets(payloads, decoder.parity_shards, id);
    let packets = picked(all, order);
    let rest = order.drop_last();
    assert(is_choice(rest, rest.len(), decoder.shard_size())) by {
        assert forall|k: int| 0 <= k < rest.len() implies 0 <= #[trigger] rest[k]
            < decoder.shard_size() by {
            assert(rest[k] == order[k]);
        }
    }
    lemma_collect(decoder, payloads, id, rest);
    assert(packets.drop_last() =~= picked(all, rest));
    let before = decode_run(decoder, packets.drop_last()).0;
    assert(0 <= order[order.len() - 1] < decoder.shard_size());
    lemma_arrive(before, payloads, id, order);
    assert(packets.last() == block_packet(payloads, decoder.parity_shards, id, order.last()));
    assert(decode_run(decoder, packets).1 =~= rebuilt_payloads(before.decode(packets.last()).1));
}

/// The state of an encoder while a block fills.
pub(crate) proof fn lemma_fill(encoder: EncoderState, payloads: Seq<Seq<u8>>, times: Seq<nat>)
    requires
        encoder.wf(),
        encoder.shards.len() == 0,
        payloads.len() < encoder.data_shards,
        times.len() == payloads.len(),
    ensures
        encode_run(encoder, payloads, times) == (
            EncoderState {
                next: (encoder.next + payloads.len()) as nat,
                latest: if payloads.len() == 0 {
                    encoder.latest
                } else {
                    Some(times.last())
                },
                shards: shards_of(payloads),
                ..encoder
            },
            Seq::new(
                payloads.len(),
                |i: int| data_packet(encoder.next + i, payloads[i]),
            ),
        ),
    decreases payloads.len(),
{
    let (after, sent) = encode_run(encoder, payloads, times);
    if payloads.len() == 0 {
        assert(shards_of(payloads) =~= encoder.shards);
        assert(sent =~= Seq::new(0, |i: int| data_packet(encoder.next + i, payloads[i])));
    } else {
        lemma_fill(encoder, payloads.drop_last(), times.drop_last());
        let paws = paws_of(encoder.shard_size());
        lemma_within_block(encoder.next as int, 0, encoder.shard_size());
        vstd::arithmetic::div_mod::lemma_small_mod(
            (encoder.next + payloads.len()) as nat,
            paws as nat,
        );
        assert(shards_of(payloads.drop_last()).push(shard_of(payloads.last())) =~= shards_of(
            payloads,
        ));
        assert(sent =~= Seq::new(
            payloads.len(),
            |i: int| data_packet(encoder.next + i, payloads[i]),
        ));
    }
}

/// The payloads of a block, coming one after the other and the last one soon after
/// the one before, leave an encoder as the packets of one block, numbered through
/// from a multiple of the block size, and the encoder is at the start of a block
/// again.
pub proof fn law_payloads_become_a_block(
    encoder: EncoderState,
    payloads: Seq<Seq<u8>>,
    times: Seq<nat>,
)
    requires
        encoder.wf(),
        encoder.shards.len() == 0,
        payloads.len() == encoder.data_shards,
        times.len() == payloads.len(),
        ({
            let before = encode_run(encoder, payloads.drop_last(), times.drop_last()).0;
            before.continuous(times.last())
        }),
    ensures
        ({
            let (after, packets) = encode_run(encoder, payloads, times);
            let id = (encoder.next as int / encoder.shard_size()) as u32;
            &&& packets == block_packets(payloads, encoder.parity_shards, id)
            &&& (id + 1) * encoder.shard_size() <= paws_of(encoder.shard_size())
            &&& after.shards == Seq::<Seq<u8>>::empty()
            &&& after.next == (encoder.next + encoder.shard_size()) % paws_of(
                encoder.shard_size(),
            )
        }),
{
    let size = encoder.shard_size();
    let first = encoder.next as int;
    let paws = paws_of(size);
    let data = encoder.data_shards as int;
    let (after, packets) = encode_run(encoder, payloads, times);
    lemma_fill(encoder, payloads.drop_last(), times.drop_last());
    lemma_within_block(first, 0, size);
    let block = first / size;
    vstd::arithmetic::div_mod::lemma_fundamental_div_mod(first, size);
    assert(0 <= block <= first) by (nonlinear_arith)
        requires
            first == size * block,
            size > 0,
            first >= 0,
    ;
    let id = block as u32;
    assert(id * size == first) by (nonlinear_arith)
        requires
            first == size * block,
            id == block,
    ;
    assert((id + 1) * size == first + size) by (nonlinear_arith)
        requires
            id * size == first,
    ;
    let before = encode_run(encoder, payloads.drop_last(), times.drop_last()).0;
    let filled = before.shards.push(shard_of(payloads.last()));
    assert(filled =~= shards_of(payloads));
    let all = block_packets(payloads, encoder.parity_shards, id);
    assert(packets =~= all) by {
        assert forall|i: int| 0 <= i < size implies #[trigger] packets[i] == all[i] by {
            vstd::arithmetic::div_mod::lemma_small_mod((first + i) as nat, paws as nat);
        }
    }
}

/// Lost packets are made good: take the payloads of a block, encode them, and lose
/// any packets as long as `data_shards` of them come through, in any order. A decoder
/// with the same shard counts that has seen nothing of the block then rebuilds exactly
/// the payloads whose data packets were lost, in their order.
pub proof fn law_lost_packets_are_made_good(
    encoder: EncoderState,
    payloads: Seq<Seq<u8>>,
    times: Seq<nat>,
    decoder: DecoderState,
    order: Seq<int>,
)
    requires
        encoder.wf(),
        encoder.shards.len() == 0,
        payloads.len() == encoder.data_shards,
        times.len() == payloads.len(),
        encode_run(encoder, payloads.drop_last(), times.drop_last()).0.continuous(times.last()),
        is_block(payloads, encoder.data_shards, encoder.parity_shards),
        decoder.data_shards == encoder.data_shards,
        decoder.parity_shards == encoder.parity_shards,
        is_choice(order, decoder.data_shards, decoder.shard_size()),
        ({
            let id = (encoder.next as int / encoder.shard_size()) as u32;
            &&& !decoder.sets.contains_key(id)
            &&& decoder.noted(id).recent(id)
        }),
        ({
            let packets = picked(encode_run(encoder, payloads, times).1, order);
            decode_run(decoder, packets.drop_last()).0.makes_good_losses(packets.last())
        }),
    ensures
        decode_run(decoder, picked(encode_run(encoder, payloads, times).1, order)).1
            == missing_payloads(
            payloads,
            arrived(block_shards(payloads, decoder.parity_shards), order),
            decoder.data_shards as int,
        ),
{
    let id = (encoder.next as int / encoder.shard_size()) as u32;
    law_payloads_become_a_block(encoder, payloads, times);
    law_enough_packets_rebuild_the_rest(decoder, payloads, id, order);
}

/// A packet with a number that came in before changes nothing while its block is open,
/// whatever else it carries.
pub proof fn law_repeated_number_changes_nothing(
    decoder: DecoderState,
    packet: Seq<u8>,
    again: Seq<u8>,
)
    requires
        decoder.wf(),
        packet.len() >= FEC_HEADER_SIZE,
        again.len() >= FEC_HEADER_SIZE,
        le32_at(again, 0) == le32_at(packet, 0),
        decoder.decode(packet).0.sets.contains_key(decoder.place_of(le32_at(packet, 0)).0),
    ensures
        decoder.decode(packet).0.decode(again) == (
            decoder.decode(packet).0,
            Decoded::Recovered(Seq::empty()),
        ),
{
    let after = decoder.decode(packet).0;
    let seq = le32_at(packet, 0);
    let (id, place) = decoder.place_of(seq);
    assert(after.place_of(seq) == (id, place));
    if decoder.takes(packet) {
        let slots = decoder.filled_by(packet);
        vstd::arithmetic::div_mod::lemma_mod_bound(seq, decoder.shard_size());
        assert(slots[place] is Some);
        assert(after.sets[id] == slots);
    }
}

/// A packet that came in once changes nothing when it comes in again while its block
/// is open.
pub proof fn law_repeated_packet_changes_nothing(decoder: DecoderState, packet: Seq<u8>)
    requires
        decoder.wf(),
        decoder.decode(packet).0.sets.contains_key(decoder.place_of(le32_at(packet, 0)).0),
    ensures
        decoder.decode(packet).0.decode(packet) == (
            decoder.decode(packet).0,
            if packet.len() < FEC_HEADER_SIZE {
                Decoded::TooShort
            } else {
                Decoded::Recovered(Seq::empty())
            },
        ),
{
    if packet.len() >= FEC_HEADER_SIZE {
        law_repeated_number_changes_nothing(decoder, packet, packet);
    }
}

/// After a packet that was taken, every block that is still open is recent: no further
/// behind the newest one than `MAX_SHARD_SETS` block sizes.
pub proof fn law_old_blocks_are_dropped(decoder: DecoderState, packet: Seq<u8>)
    requires
        decoder.takes(packet),
        decoder.decode(packet).1 is Recovered,
    ensures
        forall|id: u32| #[trigger]
            decoder.decode(packet).0.sets.contains_key(id) ==> decoder.decode(packet).0.recent(id),
{
}

/// The most blocks that a decoder has open.
pub open spec fn most_open(decoder: DecoderState) -> int {
    MAX_SHARD_SETS * decoder.shard_size() + 1
}

/// No more blocks are open than may be.
pub open spec fn few_open(decoder: DecoderState) -> bool {
    decoder.sets.dom().finite() && decoder.sets.dom().len() <= most_open(decoder)
}

/// There are only so many recent block numbers.
proof fn lemma_few_are_recent(decoder: DecoderState, ids: Set<u32>)
    requires
        ids.finite(),
        forall|id: u32| #[trigger] ids.contains(id) ==> decoder.recent(id),
    ensures
        ids.len() <= most_open(decoder),
{
    let newest = decoder.newest;
    let f = |id: u32| age(newest, id);
    let ages = ids.map(f);
    let range = vstd::set_lib::set_int_range(0, most_open(decoder));
    vstd::set_lib::lemma_int_range(0, most_open(decoder));
    vstd::set_lib::lemma_map_size(ids, ages, f);
    assert forall|a: int| ages.contains(a) implies range.contains(a) by {
        let id = choose|id: u32| ids.contains(id) && a == f(id);
        assert(decoder.recent(id));
    }
    vstd::set_lib::lemma_len_subset(ages, range);
}

/// A packet leaves no more blocks open than may be.
proof fn lemma_packet_leaves_few_open(decoder: DecoderState, packet: Seq<u8>)
    requires
        few_open(decoder),
    ensures
        few_open(decoder.decode(packet).0),
        decoder.decode(packet).0.shard_size() == decoder.shard_size(),
{
    let after = decoder.decode(packet).0;
    let (id, place) = decoder.place_of(le32_at(packet, 0));
    if decoder.takes(packet) {
        assert(after.sets.dom().subset_of(decoder.sets.dom().insert(id)));
        vstd::set_lib::lemma_len_subset(after.sets.dom(), decoder.sets.dom().insert(id));
        if decoder.decode(packet).1 is Recovered {
            law_old_blocks_are_dropped(decoder, packet);
            lemma_few_are_recent(after, after.sets.dom());
        } else {
            assert(after.sets.dom().subset_of(decoder.sets.dom()));
            vstd::set_lib::lemma_len_subset(after.sets.dom(), decoder.sets.dom());
        }
    }
}

/// Whatever comes in, a decoder keeps few blocks open: no more than `MAX_SHARD_SETS` block
/// sizes and one. A new decoder has none open.
pub proof fn law_few_blocks_are_open(decoder: DecoderState, packets: Seq<Seq<u8>>)
    requires
        few_open(decoder),
    ensures
        few_open(decode_run(decoder, packets).0),
        decode_run(decoder, packets).0.shard_size() == decoder.shard_size(),
    decreases packets.len(),
{
    if packets.len() > 0 {
        law_few_blocks_are_open(decoder, packets.drop_last());
        lemma_packet_leaves_few_open(
            decode_run(decoder, packets.drop_last()).0,
            packets.last(),
        );
    }
}

} // verus!
