//! What a block of packets holds, and why losses can be made good.

use crate::codec::{
    all_of_len, is_codeword, is_erasure_of, longest, present_count, rebuilds, rs_parity,
    valid_shards,
};
use crate::fec::decoder::{
    data_complete, lemma_padded_slots, padded_slots, payload_in, recovered,
};
use crate::fec::packet::{
    all_present, lemma_longest_bounds, padded, padded_all, shard_of, MAX_FEC_PAYLOAD,
};
use crate::wire::{le16_at, le16_bytes, lemma_le16_roundtrip};
use vstd::prelude::*;

verus! {

/// The data shards of a block with these payloads.
pub open spec fn shards_of(payloads: Seq<Seq<u8>>) -> Seq<Seq<u8>> {
    Seq::new(payloads.len(), |i: int| shard_of(payloads[i]))
}

/// The parity shards of a block with these payloads.
pub open spec fn parity_shards_of(payloads: Seq<Seq<u8>>, parity: nat) -> Seq<Seq<u8>> {
    rs_parity(padded_all(shards_of(payloads)), parity)
}

/// All shards of a block with these payloads, as its packets carry them.
pub open spec fn block_shards(payloads: Seq<Seq<u8>>, parity: nat) -> Seq<Seq<u8>> {
    shards_of(payloads) + parity_shards_of(payloads, parity)
}

/// The codec's parity for these data shards has the shape of parity: as many shards
/// as asked for, each as long as the longest data shard.
pub open spec fn parity_shaped(shards: Seq<Seq<u8>>, parity: nat) -> bool {
    let computed = rs_parity(padded_all(shards), parity);
    computed.len() == parity && all_of_len(computed, longest(all_present(shards)) as int)
}

/// These payloads make a block of `data` data shards and `parity` parity shards.
pub open spec fn is_block(payloads: Seq<Seq<u8>>, data: nat, parity: nat) -> bool {
    &&& valid_shards(data as int, parity as int)
    &&& payloads.len() == data
    &&& forall|i: int| 0 <= i < data ==> (#[trigger] payloads[i]).len() <= MAX_FEC_PAYLOAD
    &&& parity_shaped(shards_of(payloads), parity)
}

/// Those of the first `upto` payloads whose place in `slots` is empty, in order.
pub open spec fn missing_payloads(
    payloads: Seq<Seq<u8>>,
    slots: Seq<Option<Seq<u8>>>,
    upto: int,
) -> Seq<Seq<u8>>
    decreases upto,
{
    if upto <= 0 {
        Seq::empty()
    } else {
        let before = missing_payloads(payloads, slots, upto - 1);
        if slots[upto - 1] is None {
            before.push(payloads[upto - 1])
        } else {
            before
        }
    }
}

/// Wherever `slots` holds enough packets of a block, what the codec rebuilds from it
/// are the payloads of the missing data packets.
pub open spec fn recovers_losses(
    slots: Seq<Option<Seq<u8>>>,
    rebuilt: Seq<Option<Seq<u8>>>,
    data: nat,
    parity: nat,
) -> bool {
    forall|payloads: Seq<Seq<u8>>|
        is_block(payloads, data, parity) && #[trigger] is_erasure_of(
            slots,
            block_shards(payloads, parity),
        ) ==> recovered(slots, rebuilt, data as int) == missing_payloads(
            payloads,
            slots,
            data as int,
        )
}

/// No more shards are there than places.
proof fn lemma_present_bound(slots: Seq<Option<Seq<u8>>>)
    ensures
        present_count(slots) <= slots.len(),
        (exists|i: int| 0 <= i < slots.len() && (#[trigger] slots[i]) is None) ==> present_count(
            slots,
        ) < slots.len(),
    decreases slots.len(),
{
    if slots.len() > 0 {
        let rest = slots.drop_last();
        lemma_present_bound(rest);
        if exists|i: int| 0 <= i < slots.len() && (#[trigger] slots[i]) is None {
            let i = choose|i: int| 0 <= i < slots.len() && (#[trigger] slots[i]) is None;
            if i < rest.len() {
                assert(rest[i] is None);
            }
        }
    }
}

/// Places where nothing is do not count.
proof fn lemma_present_prefix(slots: Seq<Option<Seq<u8>>>, n: int)
    requires
        0 <= n <= slots.len(),
        forall|i: int| n <= i < slots.len() ==> (#[trigger] slots[i]) is None,
    ensures
        present_count(slots) == present_count(slots.take(n)),
    decreases slots.len(),
{
    if n < slots.len() {
        let rest = slots.drop_last();
        assert(slots[slots.len() - 1] is None);
        assert forall|i: int| n <= i < rest.len() implies (#[trigger] rest[i]) is None by {
            assert(slots[i] is None);
        }
        lemma_present_prefix(rest, n);
        assert(rest.take(n) =~= slots.take(n));
    } else {
        assert(slots.take(n) =~= slots);
    }
}

/// Padding a data shard does not hide its payload.
proof fn lemma_payload_in_padded(payload: Seq<u8>, len: int)
    requires
        payload.len() <= MAX_FEC_PAYLOAD,
        payload.len() + 2 <= len,
    ensures
        payload_in(padded(shard_of(payload), len)) == Some(payload),
{
    let shard = shard_of(payload);
    let wide = padded(shard, len);
    let size = payload.len() as int + 2;
    lemma_le16_roundtrip(size);
    assert(shard[0] == le16_bytes(size)[0]);
    assert(shard[1] == le16_bytes(size)[1]);
    assert(wide[0] == shard[0] && wide[1] == shard[1]);
    assert(le16_at(wide, 0) == size);
    assert(wide.subrange(2, size) =~= payload);
}

/// A block with all its data misses no payload.
pub proof fn lemma_complete_has_none_missing(
    payloads: Seq<Seq<u8>>,
    slots: Seq<Option<Seq<u8>>>,
    upto: int,
)
    requires
        data_complete(slots, upto),
    ensures
        missing_payloads(payloads, slots, upto) == Seq::<Seq<u8>>::empty(),
    decreases upto,
{
    if upto > 0 {
        assert(slots[upto - 1] is Some);
        lemma_complete_has_none_missing(payloads, slots, upto - 1);
    }
}

/// Enough packets of a block, with a data packet missing, include a parity packet,
/// which is as long as the longest data shard.
pub proof fn lemma_enough_has_parity(
    slots: Seq<Option<Seq<u8>>>,
    payloads: Seq<Seq<u8>>,
    data: nat,
    parity: nat,
)
    requires
        is_block(payloads, data, parity),
        is_erasure_of(slots, block_shards(payloads, parity)),
        present_count(slots) >= data,
        !data_complete(slots, data as int),
    ensures
        longest(slots) == longest(all_present(shards_of(payloads))),
        longest(slots) >= 2,
{
    let shards = shards_of(payloads);
    let len = longest(all_present(shards));
    let block = block_shards(payloads, parity);
    let lost = choose|i: int| 0 <= i < data && (#[trigger] slots[i]) is None;
    if forall|i: int| data <= i < slots.len() ==> (#[trigger] slots[i]) is None {
        lemma_present_prefix(slots, data as int);
        assert(slots.take(data as int)[lost] is None);
        lemma_present_bound(slots.take(data as int));
        assert(false);
    }
    let kept = choose|i: int| data <= i < slots.len() && (#[trigger] slots[i]) is Some;
    lemma_longest_bounds(slots);
    lemma_longest_bounds(all_present(shards));
    assert(slots[kept]->0 == block[kept]);
    assert(block[kept] == parity_shards_of(payloads, parity)[kept - data]);
    assert(slots[kept]->0.len() == len);
    assert(all_present(shards)[0]->0 == shard_of(payloads[0]));
    assert(len >= 2);
    let widest = choose|i: int|
        0 <= i < slots.len() && slots[i] is Some && (#[trigger] slots[i])->0.len() == longest(
            slots,
        );
    assert(slots[widest]->0 == block[widest]);
    if widest < data {
        assert(all_present(shards)[widest]->0 == block[widest]);
    } else {
        assert(block[widest] == parity_shards_of(payloads, parity)[widest - data]);
    }
}

/// What the codec rebuilds of a block are the payloads that were lost.
pub proof fn lemma_recovery(
    slots: Seq<Option<Seq<u8>>>,
    rebuilt: Seq<Option<Seq<u8>>>,
    data: nat,
    parity: nat,
)
    requires
        present_count(slots) >= data,
        !data_complete(slots, data as int),
        rebuilds(padded_slots(slots), rebuilt, data as int, parity),
    ensures
        recovers_losses(slots, rebuilt, data, parity),
{
    assert forall|payloads: Seq<Seq<u8>>|
        is_block(payloads, data, parity) && #[trigger] is_erasure_of(
            slots,
            block_shards(payloads, parity),
        ) implies recovered(slots, rebuilt, data as int) == missing_payloads(
        payloads,
        slots,
        data as int,
    ) by {
        let shards = shards_of(payloads);
        let len = longest(all_present(shards)) as int;
        let computed = parity_shards_of(payloads, parity);
        let block = block_shards(payloads, parity);
        let wide = padded_all(shards) + computed;
        let wide_slots = padded_slots(slots);
        lemma_enough_has_parity(slots, payloads, data, parity);
        lemma_padded_slots(slots);
        assert(wide.take(data as int) =~= padded_all(shards));
        assert(wide.skip(data as int) =~= computed);
        assert(is_codeword(wide, data as int, parity));
        assert(all_of_len(wide, len)) by {
            assert forall|i: int| 0 <= i < wide.len() implies (#[trigger] wide[i]).len() == len by {
                if i >= data {
                    assert(wide[i] == computed[i - data]);
                }
            }
        }
        assert(is_erasure_of(wide_slots, wide)) by {
            assert forall|i: int| 0 <= i < wide_slots.len() && wide_slots[i] is Some implies (
            #[trigger] wide_slots[i])->0 == wide[i] by {
                assert(slots[i]->0 == block[i]);
                if i >= data {
                    assert(block[i] == computed[i - data]);
                    assert(computed[i - data].len() == len);
                    assert(padded(block[i], len) =~= block[i]);
                }
            }
        }
        assert forall|i: int| 0 <= i < data implies #[trigger] rebuilt[i] == Some(
            padded(shard_of(payloads[i]), len),
        ) by {
            assert(rebuilt[i] == Some(wide[i]));
        }
        assert forall|i: int| 0 <= i < data implies payload_in(
            padded(shard_of(#[trigger] payloads[i]), len),
        ) == Some(payloads[i]) by {
            lemma_longest_bounds(all_present(shards));
            assert(all_present(shards)[i]->0 == shard_of(payloads[i]));
            lemma_payload_in_padded(payloads[i], len);
        }
        lemma_recovered_is_missing(slots, rebuilt, payloads, len, data as int);
    }
}

/// Shards that hold their payloads give the payloads.
proof fn lemma_recovered_is_missing(
    slots: Seq<Option<Seq<u8>>>,
    rebuilt: Seq<Option<Seq<u8>>>,
    payloads: Seq<Seq<u8>>,
    len: int,
    upto: int,
)
    requires
        forall|i: int|
            0 <= i < upto ==> #[trigger] rebuilt[i] == Some(padded(shard_of(payloads[i]), len)),
        forall|i: int|
            0 <= i < upto ==> payload_in(padded(shard_of(#[trigger] payloads[i]), len)) == Some(
                payloads[i],
            ),
    ensures
        recovered(slots, rebuilt, upto) == missing_payloads(payloads, slots, upto),
    decreases upto,
{
    if upto > 0 {
        lemma_recovered_is_missing(slots, rebuilt, payloads, len, upto - 1);
        assert(rebuilt[upto - 1] == Some(padded(shard_of(payloads[upto - 1]), len)));
    }
}

} // verus!
