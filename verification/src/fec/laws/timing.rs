//! When an encoder sends parity, and how it numbers its packets.

use crate::codec::rs_parity;
use crate::fec::encoder::{lemma_next_place, lemma_within_block, EncoderState};
use crate::fec::laws::{
    block_packets, encode_run, law_payloads_become_a_block, lemma_fill,
};
use crate::fec::packet::{data_packet, padded_all, parity_packet, paws_of, shard_of};
use crate::wire::{le32_at, le32_bytes, lemma_le32_roundtrip};
use vstd::prelude::*;

verus! {

/// A payload becomes a data packet at once, with the next number. If it fills its block and
/// comes less than half a second after the payload before it, whatever the time is, the
/// parity packets of the block follow it, numbered on; if it comes later than that, or does
/// not fill the block, nothing follows.
pub proof fn law_parity_follows_a_quick_payload(
    encoder: EncoderState,
    earlier: Seq<u8>,
    earlier_at: nat,
    payload: Seq<u8>,
    at: nat,
)
    requires
        encoder.wf(),
    ensures
        ({
            let before = encoder.encode(earlier, earlier_at).0;
            let (after, packets) = before.encode(payload, at);
            let shards = before.shards.push(shard_of(payload));
            let data = data_packet(before.next as int, payload);
            &&& shards.len() < encoder.data_shards ==> packets == seq![data] && after.shards
                == shards
            &&& shards.len() == encoder.data_shards && at - earlier_at >= 500_000_000 ==> packets
                == seq![data]
            &&& shards.len() == encoder.data_shards && at - earlier_at < 500_000_000 ==> packets
                == seq![data] + Seq::new(
                encoder.parity_shards,
                |j: int|
                    parity_packet(
                        before.next + 1 + j,
                        rs_parity(padded_all(shards), encoder.parity_shards)[j],
                    ),
            )
            &&& shards.len() == encoder.data_shards ==> after.shards.len() == 0
        }),
{
    lemma_encode_keeps_wf(encoder, earlier, earlier_at);
    let before = encoder.encode(earlier, earlier_at).0;
    let (after, packets) = before.encode(payload, at);
    let shards = before.shards.push(shard_of(payload));
    let paws = paws_of(encoder.shard_size());
    if shards.len() == encoder.data_shards && at - earlier_at < 500_000_000 {
        lemma_within_block(before.next as int, before.shards.len() as int, encoder.shard_size());
        let expected = seq![data_packet(before.next as int, payload)] + Seq::new(
            encoder.parity_shards,
            |j: int|
                parity_packet(
                    before.next + 1 + j,
                    rs_parity(padded_all(shards), encoder.parity_shards)[j],
                ),
        );
        assert(packets.len() == expected.len());
        assert forall|k: int| 0 <= k < packets.len() implies #[trigger] packets[k]
            == expected[k] by {
            vstd::arithmetic::div_mod::lemma_small_mod((before.next + k) as nat, paws as nat);
        }
        assert(packets =~= expected);
    }
}

/// The state after a payload, but for the shards that are kept: what counts for the numbers.
proof fn lemma_encode_keeps_wf(encoder: EncoderState, payload: Seq<u8>, now: nat)
    requires
        encoder.wf(),
    ensures
        ({
            let after = encoder.encode(payload, now).0;
            &&& after.data_shards == encoder.data_shards
            &&& after.parity_shards == encoder.parity_shards
            &&& after.latest == Some(now)
            &&& after.next < paws_of(encoder.shard_size())
            &&& after.next as int % encoder.shard_size() == after.shards.len()
            &&& after.shards.len() < encoder.data_shards
        }),
{
    let size = encoder.shard_size();
    let next = encoder.next as int;
    let place = encoder.shards.len() as int;
    let paws = paws_of(size);
    lemma_within_block(next, place, size);
    if place + 1 < encoder.data_shards {
        lemma_next_place(next, place, size);
        vstd::arithmetic::div_mod::lemma_small_mod((next + 1) as nat, paws as nat);
    } else {
        let end = next + (size - place);
        if end < paws {
            vstd::arithmetic::div_mod::lemma_small_mod(end as nat, paws as nat);
        } else {
            vstd::arithmetic::div_mod::lemma_mod_self_0(paws);
            vstd::arithmetic::div_mod::lemma_small_mod(0, size as nat);
        }
    }
}

/// The payloads of a block, the last one less than half a second after the one before it,
/// leave an encoder as all data and parity packets of the block, at whatever time that is.
/// If the last one comes later than that, only the data packets leave. Either way the
/// encoder is at the start of a block again.
///
/// For blocks of a single data packet, the payload before is the last one of the block
/// before.
pub proof fn law_last_gap_decides_on_parity(
    encoder: EncoderState,
    payloads: Seq<Seq<u8>>,
    times: Seq<nat>,
)
    requires
        encoder.wf(),
        encoder.shards.len() == 0,
        payloads.len() == encoder.data_shards,
        times.len() == payloads.len(),
        times.len() >= 2 || encoder.latest is Some,
    ensures
        ({
            let (after, packets) = encode_run(encoder, payloads, times);
            let size = encoder.data_shards + encoder.parity_shards;
            let id = (encoder.next as int / size as int) as u32;
            let previous = if times.len() >= 2 {
                times[times.len() - 2]
            } else {
                encoder.latest->0
            };
            let block = block_packets(payloads, encoder.parity_shards, id);
            &&& times.last() - previous < 500_000_000 ==> packets == block
            &&& times.last() - previous >= 500_000_000 ==> packets == block.take(
                encoder.data_shards as int,
            )
            &&& after.shards.len() == 0
            &&& after.latest == Some(times.last())
            &&& after.next == encoder.next + size || after.next == 0
        }),
{
    let (after, packets) = encode_run(encoder, payloads, times);
    let size = encoder.shard_size();
    let paws = paws_of(size);
    let first = encoder.next as int;
    let data = encoder.data_shards as int;
    let before = encode_run(encoder, payloads.drop_last(), times.drop_last()).0;
    lemma_fill(encoder, payloads.drop_last(), times.drop_last());
    if times.len() >= 2 {
        assert(times.drop_last().last() == times[times.len() - 2]);
    }
    lemma_within_block(first, 0, size);
    vstd::arithmetic::div_mod::lemma_fundamental_div_mod(first, size);
    let id = (first / size) as u32;
    assert(0 <= first / size <= first) by (nonlinear_arith)
        requires
            first >= 0,
            size > 0,
    ;
    assert(id * size == first) by (nonlinear_arith)
        requires
            first == size * (first / size),
            id == first / size,
    ;
    let block = block_packets(payloads, encoder.parity_shards, id);
    if before.continuous(times.last()) {
        law_payloads_become_a_block(encoder, payloads, times);
    } else {
        assert(packets =~= block.take(data)) by {
            assert forall|i: int| 0 <= i < data implies #[trigger] packets[i] == block.take(
                data,
            )[i] by {
                assert(block.take(data)[i] == data_packet(first + i, payloads[i]));
            }
        }
    }
    if first + size < paws {
        vstd::arithmetic::div_mod::lemma_small_mod((first + size) as nat, paws as nat);
    } else {
        vstd::arithmetic::div_mod::lemma_mod_self_0(paws);
    }
}

/// A new encoder has no payload before the first: a first block of a single data packet
/// gets no parity.
pub proof fn law_first_payload_alone_gets_no_parity(
    encoder: EncoderState,
    payload: Seq<u8>,
    now: nat,
)
    requires
        encoder.wf(),
        encoder.latest is None,
    ensures
        encoder.encode(payload, now).1 == seq![data_packet(encoder.next as int, payload)],
{
}

/// All times, moved on by `by`.
pub open spec fn moved_on(times: Seq<nat>, by: nat) -> Seq<nat> {
    Seq::new(times.len(), |k: int| times[k] + by)
}

/// The encoder whose last payload came `by` later.
pub open spec fn started_later(encoder: EncoderState, by: nat) -> EncoderState {
    EncoderState {
        latest: match encoder.latest {
            Some(latest) => Some(latest + by),
            None => None,
        },
        ..encoder
    }
}

/// Only the gaps between the times count: with all times moved on by the same amount, the
/// same packets leave.
pub proof fn law_only_gaps_between_times_count(
    encoder: EncoderState,
    payloads: Seq<Seq<u8>>,
    times: Seq<nat>,
    by: nat,
)
    requires
        times.len() == payloads.len(),
    ensures
        encode_run(started_later(encoder, by), payloads, moved_on(times, by)).1 == encode_run(
            encoder,
            payloads,
            times,
        ).1,
        encode_run(started_later(encoder, by), payloads, moved_on(times, by)).0 == started_later(
            encode_run(encoder, payloads, times).0,
            by,
        ),
    decreases payloads.len(),
{
    if payloads.len() > 0 {
        law_only_gaps_between_times_count(encoder, payloads.drop_last(), times.drop_last(), by);
        assert(moved_on(times, by).drop_last() =~= moved_on(times.drop_last(), by));
        let before = encode_run(encoder, payloads.drop_last(), times.drop_last()).0;
        let moved = started_later(before, by);
        assert(moved.encode(payloads.last(), times.last() + by).1 =~= before.encode(
            payloads.last(),
            times.last(),
        ).1);
    }
}

/// Packets are numbered through: those of one payload carry the numbers from the next one
/// on, and the number after a block is the one behind all its packets, sent or not; behind
/// the last whole block that 32 bits hold, numbers start over at zero.
pub proof fn law_packets_are_numbered_through(encoder: EncoderState, payload: Seq<u8>, now: nat)
    requires
        encoder.wf(),
    ensures
        ({
            let (after, packets) = encoder.encode(payload, now);
            let size = encoder.data_shards + encoder.parity_shards;
            let end = if encoder.shards.len() + 1 < encoder.data_shards {
                encoder.next + 1
            } else {
                encoder.next + 1 + encoder.parity_shards
            };
            &&& forall|k: int|
                0 <= k < packets.len() ==> le32_at(#[trigger] packets[k], 0) == encoder.next + k
            &&& end + size <= 0xffff_ffff ==> after.next == end
            &&& after.next == end || after.next == 0
            &&& after.next < 0xffff_ffff
            &&& after.next as int % size as int == after.shards.len()
        }),
{
    let size = encoder.shard_size();
    let next = encoder.next as int;
    let place = encoder.shards.len() as int;
    let paws = paws_of(size);
    let (after, packets) = encoder.encode(payload, now);
    lemma_encode_keeps_wf(encoder, payload, now);
    lemma_within_block(next, place, size);
    let q: int = 0xffff_ffffint / size;
    vstd::arithmetic::div_mod::lemma_fundamental_div_mod(0xffff_ffff, size);
    assert(paws + size > 0xffff_ffff) by (nonlinear_arith)
        requires
            0xffff_ffff == size * q + 0xffff_ffffint % size,
            0xffff_ffffint % size < size,
            paws == q * size,
    ;
    assert forall|k: int| 0 <= k < packets.len() implies le32_at(#[trigger] packets[k], 0)
        == next + k by {
        vstd::arithmetic::div_mod::lemma_small_mod((next + k) as nat, paws as nat);
        lemma_le32_roundtrip(next + k);
        assert(forall|i: int|
            0 <= i < 4 ==> #[trigger] packets[k][i] == le32_bytes(next + k)[i]);
    }
    let end = if place + 1 < encoder.data_shards {
        next + 1
    } else {
        next + 1 + encoder.parity_shards
    };
    if end < paws {
        vstd::arithmetic::div_mod::lemma_small_mod(end as nat, paws as nat);
    } else {
        vstd::arithmetic::div_mod::lemma_mod_self_0(paws);
    }
}

} // verus!
