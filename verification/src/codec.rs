//! Reed-Solomon erasure coding, from `reed_solomon_erasure`.

use reed_solomon_erasure::galois_8::ReedSolomon;
use vstd::prelude::*;

verus! {

/// The views of a list of shards.
pub open spec fn shard_views(shards: Seq<Vec<u8>>) -> Seq<Seq<u8>> {
    Seq::new(shards.len(), |i: int| shards[i]@)
}

/// The views of a list of shards of which some are missing.
pub open spec fn slot_views(slots: Seq<Option<Vec<u8>>>) -> Seq<Option<Seq<u8>>> {
    Seq::new(
        slots.len(),
        |i: int|
            match slots[i] {
                Some(shard) => Some(shard@),
                None => None,
            },
    )
}

/// A block can hold `data` data shards and `parity` parity shards.
pub open spec fn valid_shards(data: int, parity: int) -> bool {
    data > 0 && parity > 0 && data + parity <= 256
}

/// Every shard is `len` bytes long.
pub open spec fn all_of_len(shards: Seq<Seq<u8>>, len: int) -> bool {
    forall|i: int| 0 <= i < shards.len() ==> (#[trigger] shards[i]).len() == len
}

/// Every shard that is there is `len` bytes long.
pub open spec fn present_of_len(slots: Seq<Option<Seq<u8>>>, len: int) -> bool {
    forall|i: int|
        0 <= i < slots.len() && slots[i] is Some ==> (#[trigger] slots[i])->0.len() == len
}

/// How many of the slots hold a shard.
pub open spec fn present_count(slots: Seq<Option<Seq<u8>>>) -> nat
    decreases slots.len(),
{
    if slots.len() == 0 {
        0
    } else {
        present_count(slots.drop_last()) + (if slots.last() is Some {
            1nat
        } else {
            0nat
        })
    }
}

/// The slots hold nothing but shards of `block`, each at its own place.
pub open spec fn is_erasure_of(slots: Seq<Option<Seq<u8>>>, block: Seq<Seq<u8>>) -> bool {
    &&& slots.len() == block.len()
    &&& forall|i: int|
        0 <= i < slots.len() && slots[i] is Some ==> (#[trigger] slots[i])->0 == block[i]
}

/// The length of the longest shard that is there.
pub open spec fn longest(slots: Seq<Option<Seq<u8>>>) -> nat
    decreases slots.len(),
{
    if slots.len() == 0 {
        0
    } else {
        let rest = longest(slots.drop_last());
        match slots.last() {
            Some(shard) => if shard.len() > rest {
                shard.len()
            } else {
                rest
            },
            None => rest,
        }
    }
}

/// `block` is `data` data shards followed by the parity that the codec computes
/// for them.
pub open spec fn is_codeword(block: Seq<Seq<u8>>, data: int, parity: nat) -> bool {
    &&& block.len() == data + parity
    &&& block.skip(data) == rs_parity(block.take(data), parity)
}

/// `after` is `before` with every missing data shard rebuilt: what was there is
/// kept, a rebuilt shard is as long as the others, and the data shards of a
/// codeword come back.
pub open spec fn rebuilds(
    before: Seq<Option<Seq<u8>>>,
    after: Seq<Option<Seq<u8>>>,
    data: int,
    parity: nat,
) -> bool {
    &&& after.len() == before.len()
    &&& forall|i: int|
        0 <= i < before.len() && (before[i] is Some || i >= data) ==> #[trigger] after[i]
            == before[i]
    &&& forall|i: int|
        0 <= i < data ==> (#[trigger] after[i]) is Some && after[i]->0.len() == longest(before)
    &&& forall|block: Seq<Seq<u8>>, i: int|
        0 <= i < data && #[trigger] is_erasure_of(before, block) && is_codeword(
            block,
            data,
            parity,
        ) && all_of_len(block, longest(before) as int) ==> #[trigger] after[i] == Some(block[i])
}

/// The parity shards that the codec computes for `data`.
pub uninterp spec fn rs_parity(data: Seq<Seq<u8>>, parity: nat) -> Seq<Seq<u8>>;

/// The slots after the codec has rebuilt the missing ones of the first `data`.
pub uninterp spec fn rs_rebuilt(slots: Seq<Option<Seq<u8>>>, data: nat) -> Seq<Option<Seq<u8>>>;

/// `ReedSolomon::encode` of a codec for `data` data and `parity` parity shards,
/// on a block whose shards all have the same length, which is not zero.
///
/// Claimed of it: it succeeds, leaves the data shards as they are, and overwrites
/// the parity shards with as many bytes, which depend on the data shards and on
/// the number of parity shards only.
#[verifier::external_body]
pub(crate) fn rs_encode(data: usize, parity: usize, shards: &mut Vec<Vec<u8>>) -> (res: Result<
    (),
    reed_solomon_erasure::Error,
>)
    requires
        valid_shards(data as int, parity as int),
        old(shards)@.len() == data + parity,
        old(shards)@[0]@.len() > 0,
        all_of_len(shard_views(old(shards)@), old(shards)@[0]@.len() as int),
    ensures
        res is Ok,
        final(shards)@.len() == data + parity,
        shard_views(final(shards)@).take(data as int) == shard_views(old(shards)@).take(
            data as int,
        ),
        shard_views(final(shards)@).skip(data as int) == rs_parity(
            shard_views(old(shards)@).take(data as int),
            parity as nat,
        ),
        all_of_len(shard_views(final(shards)@), old(shards)@[0]@.len() as int),
{
    ReedSolomon::new(data, parity)?.encode(shards)
}

/// `ReedSolomon::reconstruct_data` of a codec for `data` data and `parity` parity
/// shards, on a block with at least `data` shards there, all of one length.
///
/// Claimed of it: it fails, touching nothing, if and only if the shards are empty.
/// Otherwise it leaves the shards that are there and the parity slots as they are
/// and fills each missing data shard with as many bytes, which depend on the slots
/// and on `data` only; and where the slots hold shards of a block whose parity the
/// codec had computed, the data shards are then those of that block.
#[verifier::external_body]
pub(crate) fn rs_reconstruct_data(
    data: usize,
    parity: usize,
    slots: &mut Vec<Option<Vec<u8>>>,
) -> (res: Result<(), reed_solomon_erasure::Error>)
    requires
        valid_shards(data as int, parity as int),
        old(slots)@.len() == data + parity,
        present_count(slot_views(old(slots)@)) >= data,
        present_of_len(slot_views(old(slots)@), longest(slot_views(old(slots)@)) as int),
    ensures
        res is Ok <==> longest(slot_views(old(slots)@)) > 0,
        res is Err ==> final(slots)@ == old(slots)@,
        res is Ok ==> slot_views(final(slots)@) == rs_rebuilt(
            slot_views(old(slots)@),
            data as nat,
        ),
        res is Ok ==> rebuilds(
            slot_views(old(slots)@),
            slot_views(final(slots)@),
            data as int,
            parity as nat,
        ),
{
    ReedSolomon::new(data, parity)?.reconstruct_data(slots)
}

} // verus!
