//! What packets look like, byte by byte.

use crate::codec::longest;
use crate::fec::decoder::{payload_in, recovered};
use crate::fec::packet::{
    all_present, data_packet, lemma_longest_bounds, marked_data, marked_parity, padded,
    padded_all, parity_packet, paws_of, payload_of, shard_of,
};
use vstd::prelude::*;

verus! {

/// A data packet is its number in four bytes, the mark of data packets, the length of the
/// payload and its own two bytes in two bytes, each with the least significant byte first,
/// and the payload.
pub proof fn law_data_packet_layout(seq: int, payload: Seq<u8>)
    requires
        0 <= seq < 0x1_0000_0000,
        payload.len() <= 65533,
    ensures
        ({
            let packet = data_packet(seq, payload);
            &&& packet.len() == payload.len() + 8
            &&& packet[0] + 256 * packet[1] + 65536 * packet[2] + 16777216 * packet[3] == seq
            &&& packet[4] == 0xf1 && packet[5] == 0
            &&& packet[6] + 256 * packet[7] == payload.len() + 2
            &&& packet.skip(8) == payload
            &&& payload_of(packet) == Some(payload)
        }),
{
    let packet = data_packet(seq, payload);
    crate::wire::lemma_le32_roundtrip(seq);
    assert(packet.skip(8) =~= payload);
}

/// A parity packet is its number in four bytes, the mark of parity packets and the parity.
pub proof fn law_parity_packet_layout(seq: int, shard: Seq<u8>)
    requires
        0 <= seq < 0x1_0000_0000,
    ensures
        ({
            let packet = parity_packet(seq, shard);
            &&& packet.len() == shard.len() + 6
            &&& packet[0] + 256 * packet[1] + 65536 * packet[2] + 16777216 * packet[3] == seq
            &&& packet[4] == 0xf2 && packet[5] == 0
            &&& packet.skip(6) == shard
        }),
{
    crate::wire::lemma_le32_roundtrip(seq);
    assert(parity_packet(seq, shard).skip(6) =~= shard);
}

/// The mark behind the number tells data packets from parity packets, and both from
/// anything else.
pub proof fn law_marks_tell_packets_apart(packet: Seq<u8>)
    ensures
        marked_data(packet) <==> packet.len() >= 6 && packet[4] == 0xf1 && packet[5] == 0,
        marked_parity(packet) <==> packet.len() >= 6 && packet[4] == 0xf2 && packet[5] == 0,
        payload_of(packet) is Some <==> packet.len() >= 8 && packet[4] == 0xf1 && packet[5] == 0,
        payload_of(packet) is Some ==> payload_of(packet)->0 == packet.skip(8),
{
}

/// Numbers are used up to the last whole block that 32 bits hold.
pub proof fn law_numbers_are_used_in_whole_blocks(size: int)
    requires
        0 < size <= 256,
    ensures
        paws_of(size) % size == 0,
        0 < paws_of(size) <= 0xffff_ffff < paws_of(size) + size,
{
    let q: int = 0xffff_ffffint / size;
    vstd::arithmetic::div_mod::lemma_fundamental_div_mod(0xffff_ffff, size);
    vstd::arithmetic::div_mod::lemma_mod_multiples_basic(q, size);
    crate::fec::packet::lemma_paws_positive(size);
    assert(0xffff_ffff < q * size + size) by (nonlinear_arith)
        requires
            0xffff_ffff == size * q + 0xffff_ffffint % size,
            0xffff_ffffint % size < size,
    ;
}

/// What the parity of a block is computed over are its shards, each with as many zeros
/// behind it as bring it to the length of the longest: no shard is cut, and one is as it
/// was.
pub proof fn law_shards_are_filled_up_with_zeros(shards: Seq<Seq<u8>>, i: int)
    requires
        0 <= i < shards.len(),
    ensures
        ({
            let all = padded_all(shards);
            &&& all.len() == shards.len()
            &&& all[i].len() >= shards[i].len()
            &&& all[i].take(shards[i].len() as int) == shards[i]
            &&& forall|k: int|
                shards[i].len() <= k < all[i].len() ==> #[trigger] all[i][k] == 0
            &&& forall|j: int| 0 <= j < shards.len() ==> (#[trigger] all[j]).len() == all[i].len()
            &&& exists|j: int|
                0 <= j < shards.len() && #[trigger] shards[j] == all[j]
        }),
{
    let slots = all_present(shards);
    let all = padded_all(shards);
    lemma_longest_bounds(slots);
    assert(slots[i] == Some(shards[i]));
    let j = if longest(slots) > 0 {
        choose|j: int|
            0 <= j < slots.len() && slots[j] is Some && (#[trigger] slots[j])->0.len() == longest(
                slots,
            )
    } else {
        i
    };
    assert(slots[j] == Some(shards[j]));
    assert(all[i].take(shards[i].len() as int) =~= shards[i]);
    assert(all[j] =~= shards[j]);
}

/// The payload of a data shard is what lies between its size field, which counts its own two
/// bytes, and the size that it tells; zeros behind do not matter. A size that does not lie
/// within the shard is no payload.
pub proof fn law_payload_is_cut_to_its_size(shard: Seq<u8>)
    ensures
        ({
            let size = shard[0] + 256 * shard[1];
            &&& payload_in(shard) is Some <==> shard.len() >= 2 && 2 <= size <= shard.len()
            &&& payload_in(shard) is Some ==> payload_in(shard)->0 == shard.subrange(2, size)
        }),
{
}

/// A payload is found again in its shard, however many zeros stand behind.
pub proof fn law_payload_is_found_again(payload: Seq<u8>, len: int)
    requires
        payload.len() <= 65533,
        len >= payload.len() + 2,
    ensures
        payload_in(padded(shard_of(payload), len)) == Some(payload),
{
    let shard = padded(shard_of(payload), len);
    let own = shard_of(payload);
    crate::wire::lemma_le16_roundtrip(payload.len() as int + 2);
    assert(own[0] == crate::wire::le16_bytes(payload.len() as int + 2)[0]);
    assert(own[1] == crate::wire::le16_bytes(payload.len() as int + 2)[1]);
    assert(shard[0] == own[0] && shard[1] == own[1]);
    assert(shard.subrange(2, payload.len() as int + 2) =~= payload);
}

/// Each data packet that is missing gives the payload in its rebuilt shard, if the size
/// there makes sense, behind those of the packets before it; one that makes no sense keeps
/// none of the others back, and packets that are there give nothing.
pub proof fn law_each_missing_packet_gives_its_payload(
    slots: Seq<Option<Seq<u8>>>,
    rebuilt: Seq<Option<Seq<u8>>>,
    upto: int,
)
    requires
        0 <= upto < slots.len(),
        upto < rebuilt.len(),
    ensures
        recovered(slots, rebuilt, 0).len() == 0,
        ({
            let before = recovered(slots, rebuilt, upto);
            let after = recovered(slots, rebuilt, upto + 1);
            let shard = rebuilt[upto]->0;
            let size = shard[0] + 256 * shard[1];
            let fits = shard.len() >= 2 && 2 <= size <= shard.len();
            if slots[upto] is None && rebuilt[upto] is Some && fits {
                after == before.push(shard.subrange(2, size))
            } else {
                after == before
            }
        }),
{
    law_payload_is_cut_to_its_size(rebuilt[upto]->0);
}

} // verus!
