//! Rebuilding payloads from the packets that came through.

use crate::codec::{
    is_erasure_of, longest, present_count, present_of_len, rebuilds, rs_rebuilt,
    rs_reconstruct_data, shard_views, slot_views, valid_shards,
};
use crate::error::FecError;
use crate::fec::block::{
    block_shards, is_block, lemma_complete_has_none_missing, lemma_enough_has_parity,
    lemma_recovery, missing_payloads,
};
use crate::fec::packet::{
    lemma_longest_bounds, padded, padded_copy, paws, paws_of, seqid, validate_shards,
    FEC_HEADER_SIZE,
};
use crate::wire::{le16_at, le32_at, put_bytes, read_le16, tail_copy};
use std::collections::HashMap;
use vstd::prelude::*;

verus! {

/// Blocks further than this many block sizes behind the newest one are dropped.
pub const MAX_SHARD_SETS: u32 = 3;

/// How far block number `id` lies behind `newest`, on the circle of 32-bit numbers.
pub open spec fn age(newest: u32, id: u32) -> int {
    if newest >= id {
        newest - id
    } else {
        newest - id + 0x1_0000_0000
    }
}

/// A block of which nothing has come in.
pub open spec fn no_shards(shard_size: int) -> Seq<Option<Seq<u8>>> {
    Seq::new(shard_size as nat, |i: int| None)
}

/// The shards that are there, brought to the length of the longest.
pub open spec fn padded_slots(slots: Seq<Option<Seq<u8>>>) -> Seq<Option<Seq<u8>>> {
    Seq::new(
        slots.len(),
        |i: int|
            match slots[i] {
                Some(shard) => Some(padded(shard, longest(slots) as int)),
                None => None,
            },
    )
}

/// The payload in a data shard, if the shard's size field makes sense.
pub open spec fn payload_in(shard: Seq<u8>) -> Option<Seq<u8>> {
    if shard.len() >= 2 && 2 <= le16_at(shard, 0) <= shard.len() {
        Some(shard.subrange(2, le16_at(shard, 0)))
    } else {
        None
    }
}

/// All of the first `data` shards are there.
pub open spec fn data_complete(slots: Seq<Option<Seq<u8>>>, data: int) -> bool {
    forall|i: int| 0 <= i < data ==> (#[trigger] slots[i]) is Some
}

/// The payloads in `rebuilt` at those of the first `upto` places where `slots` had
/// nothing, in order.
pub open spec fn recovered(
    slots: Seq<Option<Seq<u8>>>,
    rebuilt: Seq<Option<Seq<u8>>>,
    upto: int,
) -> Seq<Seq<u8>>
    decreases upto,
{
    if upto <= 0 {
        Seq::empty()
    } else {
        let before = recovered(slots, rebuilt, upto - 1);
        if slots[upto - 1] is None && rebuilt[upto - 1] is Some && payload_in(
            rebuilt[upto - 1]->0,
        ) is Some {
            before.push(payload_in(rebuilt[upto - 1]->0)->0)
        } else {
            before
        }
    }
}

/// What came of a packet.
pub enum Decoded {
    /// The packet has no complete header.
    TooShort,
    /// The block is full of empty shards.
    Undecodable,
    /// The packet was taken, and these payloads of lost packets were rebuilt.
    Recovered(Seq<Seq<u8>>),
}

/// What a decoder has collected.
pub struct DecoderState {
    /// Data packets in a block.
    pub data_shards: nat,
    /// Parity packets in a block.
    pub parity_shards: nat,
    /// The newest block number.
    pub newest: u32,
    /// The blocks that are open, by number.
    pub sets: Map<u32, Seq<Option<Seq<u8>>>>,
}

impl DecoderState {
    /// Packets in a block.
    pub open spec fn shard_size(self) -> int {
        (self.data_shards + self.parity_shards) as int
    }

    /// Every open block has a place for each packet, and too few packets to be
    /// decoded.
    pub open spec fn wf(self) -> bool {
        &&& valid_shards(self.data_shards as int, self.parity_shards as int)
        &&& forall|id: u32| #[trigger]
            self.sets.contains_key(id) ==> self.sets[id].len() == self.shard_size()
                && present_count(self.sets[id]) < self.data_shards
    }

    /// What has come in of block `id`.
    pub open spec fn slots(self, id: u32) -> Seq<Option<Seq<u8>>> {
        if self.sets.contains_key(id) {
            self.sets[id]
        } else {
            no_shards(self.shard_size())
        }
    }

    /// The block number and the place in the block of packet number `seq`.
    pub open spec fn place_of(self, seq: int) -> (u32, int) {
        ((seq / self.shard_size()) as u32, seq % self.shard_size())
    }

    /// The state in which block `id` has been seen.
    pub open spec fn noted(self, id: u32) -> DecoderState {
        if id > self.newest && id - self.newest < 0x8000_0000 {
            DecoderState { newest: id, ..self }
        } else {
            self
        }
    }

    /// Block `id` is recent enough to be kept.
    pub open spec fn recent(self, id: u32) -> bool {
        age(self.newest, id) <= MAX_SHARD_SETS * self.shard_size()
    }

    /// The state without the blocks that are too old.
    pub open spec fn expired(self) -> DecoderState {
        DecoderState { sets: self.sets.filter_keys(|id: u32| self.recent(id)), ..self }
    }

    /// The state with `slots` for block `id`.
    pub open spec fn with(self, id: u32, slots: Seq<Option<Seq<u8>>>) -> DecoderState {
        DecoderState { sets: self.sets.insert(id, slots), ..self }
    }

    /// The state without block `id`.
    pub open spec fn without(self, id: u32) -> DecoderState {
        DecoderState { sets: self.sets.remove(id), ..self }
    }

    /// The state and the outcome after block `id` has filled up to `slots`.
    pub open spec fn store(self, id: u32, slots: Seq<Option<Seq<u8>>>) -> (DecoderState, Decoded) {
        if present_count(slots) < self.data_shards {
            (self.with(id, slots).expired(), Decoded::Recovered(Seq::empty()))
        } else if data_complete(slots, self.data_shards as int) {
            (self.without(id).expired(), Decoded::Recovered(Seq::empty()))
        } else if longest(slots) == 0 {
            (self.without(id), Decoded::Undecodable)
        } else {
            let rebuilt = rs_rebuilt(padded_slots(slots), self.data_shards);
            (
                self.without(id).expired(),
                Decoded::Recovered(recovered(slots, rebuilt, self.data_shards as int)),
            )
        }
    }

    /// The block of `packet`, with the packet in its place.
    pub open spec fn filled_by(self, packet: Seq<u8>) -> Seq<Option<Seq<u8>>> {
        let (id, place) = self.place_of(le32_at(packet, 0));
        self.slots(id).update(place, Some(packet.skip(FEC_HEADER_SIZE as int)))
    }

    /// `packet` has a number in range and is not there yet.
    pub open spec fn takes(self, packet: Seq<u8>) -> bool {
        let seq = le32_at(packet, 0);
        let (id, place) = self.place_of(seq);
        &&& packet.len() >= FEC_HEADER_SIZE
        &&& seq < paws_of(self.shard_size())
        &&& self.slots(id)[place] is None
    }

    /// If `packet` brings a block to `data_shards` packets or more, then whatever the
    /// payloads of the block were, the outcome is those of them whose data packets
    /// have not come in.
    pub open spec fn makes_good_losses(self, packet: Seq<u8>) -> bool {
        let slots = self.filled_by(packet);
        forall|payloads: Seq<Seq<u8>>|
            is_block(payloads, self.data_shards, self.parity_shards) && #[trigger] is_erasure_of(
                slots,
                block_shards(payloads, self.parity_shards),
            ) && self.takes(packet) && present_count(slots) >= self.data_shards ==> self.decode(
                packet,
            ).1 == Decoded::Recovered(
                missing_payloads(payloads, slots, self.data_shards as int),
            )
    }

    /// The state and the outcome after `packet` came in.
    ///
    /// Packets with a number out of range and packets that are there already change
    /// nothing. With the packet that brings a block to `data_shards` packets, the
    /// block is closed and the payloads of its missing data packets are rebuilt.
    pub open spec fn decode(self, packet: Seq<u8>) -> (DecoderState, Decoded) {
        let seq = le32_at(packet, 0);
        let (id, place) = self.place_of(seq);
        let slots = self.slots(id);
        if packet.len() < FEC_HEADER_SIZE {
            (self, Decoded::TooShort)
        } else if seq >= paws_of(self.shard_size()) || slots[place] is Some {
            (self, Decoded::Recovered(Seq::empty()))
        } else {
            self.noted(id).store(
                id,
                slots.update(place, Some(packet.skip(FEC_HEADER_SIZE as int))),
            )
        }
    }
}

/// The result `res` reports the outcome `decoded`.
pub open spec fn reports(res: Result<Vec<Vec<u8>>, FecError>, decoded: Decoded) -> bool {
    match decoded {
        Decoded::TooShort => res is Err && res->Err_0 is PacketTooShort,
        Decoded::Undecodable => res is Err && res->Err_0 is Codec,
        Decoded::Recovered(payloads) => res is Ok && shard_views(res->Ok_0@) == payloads,
    }
}

/// The packets that have come in of one block.
#[derive(Debug)]
struct ShardSet {
    shards: Vec<Option<Vec<u8>>>,
}

/// Collects packets and rebuilds the payloads of lost ones.
#[derive(Debug)]
pub struct FecDecoder {
    data_shards: usize,
    shard_size: usize,
    paws: u32,
    shard_set: HashMap<u32, ShardSet>,
    newest_shard_id: u32,
}

impl View for FecDecoder {
    type V = DecoderState;

    closed spec fn view(&self) -> DecoderState {
        DecoderState {
            data_shards: self.data_shards as nat,
            parity_shards: (self.shard_size - self.data_shards) as nat,
            newest: self.newest_shard_id,
            sets: self.shard_set@.map_values(|set: ShardSet| slot_views(set.shards@)),
        }
    }
}

impl FecDecoder {
    /// The fields agree with each other and the state is well formed.
    pub closed spec fn wf(&self) -> bool {
        &&& self.data_shards < self.shard_size
        &&& self.paws == paws_of(self.shard_size as int)
        &&& self@.wf()
    }

    /// What a well-formed decoder shows is well formed.
    pub proof fn lemma_wf(&self)
        requires
            self.wf(),
        ensures
            self@.wf(),
    {
    }

    /// A decoder that has seen nothing.
    pub fn new(data_shards: usize, parity_shards: usize) -> (res: Result<FecDecoder, FecError>)
        ensures
            res is Ok <==> valid_shards(data_shards as int, parity_shards as int),
            res is Err ==> res->Err_0 is InvalidShards,
            res is Ok ==> res->Ok_0.wf() && res->Ok_0@ == (DecoderState {
                data_shards: data_shards as nat,
                parity_shards: parity_shards as nat,
                newest: 0,
                sets: Map::empty(),
            }),
    {
        broadcast use vstd::std_specs::hash::group_hash_axioms;

        if let Err(err) = validate_shards(data_shards, parity_shards) {
            return Err(err);
        }
        let shard_size: usize = data_shards + parity_shards;
        let decoder = FecDecoder {
            data_shards,
            shard_size,
            paws: paws(shard_size),
            shard_set: HashMap::new(),
            newest_shard_id: 0,
        };
        assert(decoder@.sets =~= Map::empty());
        Ok(decoder)
    }

    /// Takes a packet and returns the payloads that could be rebuilt with it.
    pub fn decode(&mut self, packet: &[u8]) -> (res: Result<Vec<Vec<u8>>, FecError>)
        requires
            old(self).wf(),
        ensures
            final(self).wf(),
            final(self)@ == old(self)@.decode(packet@).0,
            reports(res, old(self)@.decode(packet@).1),
            old(self)@.makes_good_losses(packet@),
    {
        broadcast use vstd::std_specs::hash::group_hash_axioms;

        if packet.len() < FEC_HEADER_SIZE {
            return Err(FecError::PacketTooShort);
        }
        let seq: u32 = seqid(packet);
        let nothing: Vec<Vec<u8>> = Vec::new();
        assert(shard_views(nothing@) =~= Seq::empty());
        if seq >= self.paws {
            return Ok(nothing);
        }
        let shard_id: u32 = seq / self.shard_size as u32;
        let shard_index: usize = seq as usize % self.shard_size;
        let ghost before = self@;
        let ghost slots = before.slots(shard_id);
        let known = match self.shard_set.get(&shard_id) {
            Some(set) => {
                assert(before.sets[shard_id] == slot_views(set.shards@));
                set.shards[shard_index].is_some()
            },
            None => false,
        };
        assert(known == (slots[shard_index as int] is Some));
        if known {
            return Ok(nothing);
        }
        let mut set = match self.shard_set.remove(&shard_id) {
            Some(set) => set,
            None => ShardSet { shards: empty_slots(self.shard_size) },
        };
        assert(slot_views(set.shards@) =~= slots);
        assert(self@.sets =~= before.sets.remove(shard_id));
        set.shards[shard_index] = Some(tail_copy(packet, FEC_HEADER_SIZE));
        let ghost filled = slots.update(shard_index as int, Some(packet@.skip(6)));
        assert(slot_views(set.shards@) =~= filled);
        if shard_id > self.newest_shard_id && shard_id - self.newest_shard_id < 0x8000_0000 {
            self.newest_shard_id = shard_id;
        }
        let ghost noted = before.noted(shard_id);
        let present: usize = count_present(&set.shards);
        if present < self.data_shards {
            self.shard_set.insert(shard_id, set);
            assert(self@.sets =~= noted.with(shard_id, filled).sets);
            self.discard_old_shards();
            return Ok(nothing);
        }
        assert(self@.sets =~= noted.without(shard_id).sets);
        if has_all_data(&set.shards, self.data_shards) {
            proof {
                assert forall|payloads: Seq<Seq<u8>>| #[trigger]
                    is_erasure_of(
                        filled,
                        block_shards(payloads, before.parity_shards),
                    ) implies missing_payloads(payloads, filled, before.data_shards as int)
                    == Seq::<Seq<u8>>::empty() by {
                    lemma_complete_has_none_missing(payloads, filled, before.data_shards as int);
                }
            }
            self.discard_old_shards();
            return Ok(nothing);
        }
        proof {
            assert forall|payloads: Seq<Seq<u8>>|
                is_block(payloads, before.data_shards, before.parity_shards)
                    && #[trigger] is_erasure_of(
                    filled,
                    block_shards(payloads, before.parity_shards),
                ) implies longest(filled) > 0 by {
                lemma_enough_has_parity(
                    filled,
                    payloads,
                    before.data_shards,
                    before.parity_shards,
                );
            }
        }
        let payloads = match rebuild(&set.shards, self.data_shards) {
            Ok(payloads) => payloads,
            Err(err) => return Err(err),
        };
        proof {
            lemma_recovery(
                filled,
                rs_rebuilt(padded_slots(filled), before.data_shards),
                before.data_shards,
                before.parity_shards,
            );
        }
        self.discard_old_shards();
        Ok(payloads)
    }

    /// Drops the blocks that are too old.
    fn discard_old_shards(&mut self)
        requires
            old(self).wf(),
        ensures
            final(self).wf(),
            final(self)@ == old(self)@.expired(),
    {
        broadcast use vstd::std_specs::hash::group_hash_axioms;

        let ghost before = self@;
        let ghost sets = self.shard_set@;
        let newest: u32 = self.newest_shard_id;
        let limit: u32 = MAX_SHARD_SETS * self.shard_size as u32;
        let mut doomed: Vec<u32> = Vec::new();
        for id in it: self.shard_set.keys()
            invariant
                newest == before.newest,
                limit == MAX_SHARD_SETS * before.shard_size(),
                forall|id: u32| #[trigger]
                    sets.contains_key(id) && !before.recent(id) ==> doomed@.contains(id) || exists|
                        j: int,
                    |
                        it.index() <= j < it.seq().len() && *(#[trigger] it.seq()[j]) == id,
                forall|k: int| 0 <= k < doomed@.len() ==> !before.recent(#[trigger] doomed@[k]),
        {
            let ghost so_far = doomed@;
            if newest.wrapping_sub(*id) > limit {
                doomed.push(*id);
                assert(doomed@.last() == *id);
                assert(forall|x: u32| so_far.contains(x) ==> #[trigger] doomed@.contains(x)) by {
                    broadcast use vstd::seq_lib::group_seq_properties;

                }
            }
        }
        let count: usize = doomed.len();
        for i in 0..count
            invariant
                count == doomed@.len(),
                forall|k: int| 0 <= k < doomed@.len() ==> !before.recent(#[trigger] doomed@[k]),
                *self == (FecDecoder { shard_set: self.shard_set, ..*old(self) }),
                forall|id: u32| #[trigger]
                    self.shard_set@.contains_key(id) ==> sets.contains_key(id)
                        && self.shard_set@[id] == sets[id],
                forall|id: u32|
                    sets.contains_key(id) && before.recent(id) ==> #[trigger]
                        self.shard_set@.contains_key(id),
                forall|k: int|
                    0 <= k < i ==> !self.shard_set@.contains_key(#[trigger] doomed@[k]),
        {
            let ghost left = self.shard_set@;
            self.shard_set.remove(&doomed[i]);
            assert(self.shard_set@ == left.remove(doomed@[i as int]));
        }
        proof {
            assert forall|id: u32| sets.contains_key(id) && !before.recent(
                id,
            ) implies !self.shard_set@.contains_key(id) by {
                assert(doomed@.contains(id));
            }
        }
        assert(self@.sets =~= before.expired().sets);
    }
}

/// As many empty places as a block has packets.
fn empty_slots(shard_size: usize) -> (slots: Vec<Option<Vec<u8>>>)
    ensures
        slot_views(slots@) == no_shards(shard_size as int),
{
    let mut slots: Vec<Option<Vec<u8>>> = Vec::new();
    for i in 0..shard_size
        invariant
            slots@.len() == i,
            forall|j: int| 0 <= j < i ==> (#[trigger] slots@[j]) is None,
    {
        slots.push(None);
    }
    assert(slot_views(slots@) =~= no_shards(shard_size as int));
    slots
}

/// How many places are taken.
fn count_present(slots: &Vec<Option<Vec<u8>>>) -> (count: usize)
    ensures
        count == present_count(slot_views(slots@)),
{
    let ghost views = slot_views(slots@);
    let mut count: usize = 0;
    for i in 0..slots.len()
        invariant
            views == slot_views(slots@),
            count <= i,
            count == present_count(views.take(i as int)),
    {
        assert(views.take(i + 1).drop_last() =~= views.take(i as int));
        if slots[i].is_some() {
            count += 1;
        }
    }
    assert(views.take(slots@.len() as int) =~= views);
    count
}

/// Are the first `data` places all taken?
fn has_all_data(slots: &Vec<Option<Vec<u8>>>, data: usize) -> (all: bool)
    requires
        data <= slots@.len(),
    ensures
        all == data_complete(slot_views(slots@), data as int),
{
    let ghost views = slot_views(slots@);
    for i in 0..data
        invariant
            data <= slots@.len(),
            views == slot_views(slots@),
            forall|j: int| 0 <= j < i ==> (#[trigger] views[j]) is Some,
    {
        if slots[i].is_none() {
            assert(views[i as int] is None);
            return false;
        }
    }
    true
}

/// Padding changes neither which shards are there nor which length is the greatest.
pub proof fn lemma_padded_slots(slots: Seq<Option<Seq<u8>>>)
    ensures
        present_count(padded_slots(slots)) == present_count(slots),
        present_of_len(padded_slots(slots), longest(slots) as int),
        longest(padded_slots(slots)) == longest(slots),
{
    let wide = padded_slots(slots);
    lemma_same_presence(slots, wide);
    lemma_longest_bounds(slots);
    lemma_longest_bounds(wide);
    if longest(slots) > 0 {
        let i = choose|i: int|
            0 <= i < slots.len() && slots[i] is Some && (#[trigger] slots[i])->0.len() == longest(
                slots,
            );
        assert(wide[i]->0.len() == longest(slots));
    }
}

/// Where the same shards are there, as many are there.
proof fn lemma_same_presence(a: Seq<Option<Seq<u8>>>, b: Seq<Option<Seq<u8>>>)
    requires
        a.len() == b.len(),
        forall|i: int| 0 <= i < a.len() ==> (#[trigger] a[i] is Some <==> b[i] is Some),
    ensures
        present_count(a) == present_count(b),
    decreases a.len(),
{
    if a.len() > 0 {
        assert(a[a.len() - 1] is Some <==> b[a.len() - 1] is Some);
        assert forall|i: int| 0 <= i < a.drop_last().len() implies (
        #[trigger] a.drop_last()[i] is Some <==> b.drop_last()[i] is Some) by {
            assert(a[i] is Some <==> b[i] is Some);
        }
        lemma_same_presence(a.drop_last(), b.drop_last());
    }
}

/// The payloads of the missing data packets of a block that has enough packets.
fn rebuild(slots: &Vec<Option<Vec<u8>>>, data: usize) -> (res: Result<Vec<Vec<u8>>, FecError>)
    requires
        valid_shards(data as int, slots@.len() - data),
        present_count(slot_views(slots@)) >= data,
    ensures
        match res {
            Ok(payloads) => {
                &&& longest(slot_views(slots@)) > 0
                &&& shard_views(payloads@) == recovered(
                    slot_views(slots@),
                    rs_rebuilt(padded_slots(slot_views(slots@)), data as nat),
                    data as int,
                )
                &&& rebuilds(
                    padded_slots(slot_views(slots@)),
                    rs_rebuilt(padded_slots(slot_views(slots@)), data as nat),
                    data as int,
                    (slots@.len() - data) as nat,
                )
            },
            Err(err) => longest(slot_views(slots@)) == 0 && err is Codec,
        },
{
    let ghost views = slot_views(slots@);
    let count: usize = slots.len();
    let mut max_len: usize = 0;
    for i in 0..count
        invariant
            count == slots@.len(),
            views == slot_views(slots@),
            max_len == longest(views.take(i as int)),
    {
        assert(views.take(i + 1).drop_last() =~= views.take(i as int));
        if let Some(shard) = &slots[i] {
            if shard.len() > max_len {
                max_len = shard.len();
            }
        }
    }
    assert(views.take(count as int) =~= views);
    let mut whole: Vec<Option<Vec<u8>>> = Vec::new();
    for i in 0..count
        invariant
            count == slots@.len(),
            views == slot_views(slots@),
            max_len == longest(views),
            slot_views(whole@) == padded_slots(views).take(i as int),
    {
        proof {
            lemma_longest_bounds(views);
        }
        let ghost so_far = whole@;
        let slot = match &slots[i] {
            Some(shard) => {
                assert(views[i as int] == Some(shard@));
                Some(padded_copy(shard.as_slice(), max_len))
            },
            None => None,
        };
        whole.push(slot);
        assert(slot_views(whole@) =~= slot_views(so_far).push(padded_slots(views)[i as int]));
        assert(slot_views(whole@) =~= padded_slots(views).take(i + 1));
    }
    assert(slot_views(whole@) =~= padded_slots(views));
    proof {
        lemma_padded_slots(views);
    }
    if let Err(err) = rs_reconstruct_data(data, count - data, &mut whole) {
        return Err(fec_error(err));
    }
    Ok(lost_payloads(slots, &whole, data))
}

/// The payloads of the data packets that are missing in `slots`, where `rebuilt` is the
/// block that was rebuilt from it.
pub fn lost_payloads(
    slots: &Vec<Option<Vec<u8>>>,
    rebuilt: &Vec<Option<Vec<u8>>>,
    data: usize,
) -> (payloads: Vec<Vec<u8>>)
    requires
        data <= slots@.len(),
        data <= rebuilt@.len(),
    ensures
        shard_views(payloads@) == recovered(
            slot_views(slots@),
            slot_views(rebuilt@),
            data as int,
        ),
{
    let ghost views = slot_views(slots@);
    let ghost whole = slot_views(rebuilt@);
    let mut payloads: Vec<Vec<u8>> = Vec::new();
    assert(shard_views(payloads@) =~= Seq::empty());
    for i in 0..data
        invariant
            data <= slots@.len(),
            data <= rebuilt@.len(),
            views == slot_views(slots@),
            whole == slot_views(rebuilt@),
            shard_views(payloads@) == recovered(views, whole, i as int),
    {
        let ghost so_far = payloads@;
        if slots[i].is_none() {
            if let Some(shard) = &rebuilt[i] {
                assert(whole[i as int] == Some(shard@));
                if let Some(payload) = sized_payload(shard) {
                    payloads.push(payload);
                    assert(shard_views(payloads@) =~= shard_views(so_far).push(payload@));
                }
            }
        }
    }
    payloads
}

/// The payload in a data shard, if the shard's size field makes sense.
fn sized_payload(shard: &Vec<u8>) -> (payload: Option<Vec<u8>>)
    ensures
        match payload {
            Some(payload) => payload_in(shard@) == Some(payload@),
            None => payload_in(shard@) is None,
        },
{
    if shard.len() < 2 {
        return None;
    }
    let size: usize = read_le16(shard.as_slice(), 0) as usize;
    if size >= 2 && size <= shard.len() {
        let mut payload: Vec<u8> = Vec::new();
        put_bytes(&mut payload, &shard.as_slice()[2..size]);
        Some(payload)
    } else {
        None
    }
}

/// Passes on an error of the erasure codec.
fn fec_error(err: reed_solomon_erasure::Error) -> (res: FecError)
    ensures
        res == FecError::Codec(err),
{
    FecError::Codec(err)
}

} // verus!
