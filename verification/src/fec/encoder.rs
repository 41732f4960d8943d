//! Turning payloads into packets.

use crate::codec::{all_of_len, longest, rs_encode, rs_parity, shard_views, valid_shards};
use crate::error::FecError;
use crate::fec::block::parity_shaped;
use crate::fec::packet::{
    all_present, data_packet, header, lemma_longest_bounds, lemma_paws_positive, padded_all,
    padded_copy, parity_packet, paws, paws_of, shard_of, validate_shards, MAX_FEC_ENCODE_LATENCY,
    MAX_FEC_PAYLOAD, TYPE_DATA, TYPE_PARITY,
};
use crate::utils::{duration_nanos, elapsed_reading};
use crate::wire::{put_bytes, put_le16, put_le32};
use std::time::Duration;
use std::time::Instant;
use vstd::prelude::*;

verus! {

/// The packets that one payload turned into.
#[derive(Debug)]
pub struct EncodedPackets {
    /// The packets, in the order in which to send them.
    pub packets: Vec<Vec<u8>>,
}

/// What an encoder is about to do.
pub struct EncoderState {
    /// Data packets in a block.
    pub data_shards: nat,
    /// Parity packets in a block.
    pub parity_shards: nat,
    /// The number of the next packet.
    pub next: nat,
    /// When the latest payload came.
    pub latest: Option<nat>,
    /// The shards of the block that is being filled.
    pub shards: Seq<Seq<u8>>,
}

impl EncoderState {
    /// Packets in a block.
    pub open spec fn shard_size(self) -> int {
        (self.data_shards + self.parity_shards) as int
    }

    /// The block being filled is not full, and the next packet's number is its place
    /// in that block.
    pub open spec fn wf(self) -> bool {
        &&& valid_shards(self.data_shards as int, self.parity_shards as int)
        &&& self.shards.len() < self.data_shards
        &&& self.next < paws_of(self.shard_size())
        &&& self.next as int % self.shard_size() == self.shards.len()
        &&& forall|i: int|
            0 <= i < self.shards.len() ==> 2 <= (#[trigger] self.shards[i]).len() <= 65535
    }

    /// A payload at time `now` follows the one before closely enough for parity.
    pub open spec fn continuous(self, now: nat) -> bool {
        match self.latest {
            Some(latest) => now - latest < MAX_FEC_ENCODE_LATENCY,
            None => false,
        }
    }

    /// The state after a payload whose packets end before number `next`.
    pub open spec fn advanced(self, by: int, shards: Seq<Seq<u8>>, now: nat) -> EncoderState {
        EncoderState {
            next: ((self.next + by) % paws_of(self.shard_size())) as nat,
            shards,
            latest: Some(now),
            ..self
        }
    }

    /// The parity packets of the block that `shards` fills.
    pub open spec fn parity_packets(self, shards: Seq<Seq<u8>>) -> Seq<Seq<u8>> {
        let parity = rs_parity(padded_all(shards), self.parity_shards);
        Seq::new(
            self.parity_shards,
            |j: int|
                parity_packet((self.next + 1 + j) % paws_of(self.shard_size()), parity[j]),
        )
    }

    /// The state and the packets after `payload` came at time `now`.
    ///
    /// A payload becomes a data packet at once. The last data packet of a block is
    /// followed by the parity packets, unless it came late: then their numbers are
    /// skipped.
    pub open spec fn encode(self, payload: Seq<u8>, now: nat) -> (EncoderState, Seq<Seq<u8>>) {
        let data = seq![data_packet(self.next as int, payload)];
        let shards = self.shards.push(shard_of(payload));
        if shards.len() < self.data_shards {
            (self.advanced(1, shards, now), data)
        } else if !self.continuous(now) {
            (self.advanced(1 + self.parity_shards as int, Seq::empty(), now), data)
        } else {
            (
                self.advanced(1 + self.parity_shards as int, Seq::empty(), now),
                data + self.parity_packets(shards),
            )
        }
    }
}

/// Turns payloads into data packets and parity packets.
pub struct FecEncoder {
    data_shards: usize,
    parity_shards: usize,
    shard_size: usize,
    paws: u32,
    next: u32,
    started: Instant,
    ts_latest_packet: Option<u128>,
    shards: Vec<Vec<u8>>,
}

impl View for FecEncoder {
    type V = EncoderState;

    closed spec fn view(&self) -> EncoderState {
        EncoderState {
            data_shards: self.data_shards as nat,
            parity_shards: self.parity_shards as nat,
            next: self.next as nat,
            latest: match self.ts_latest_packet {
                Some(ts) => Some(ts as nat),
                None => None,
            },
            shards: shard_views(self.shards@),
        }
    }
}

/// The sequence numbers of a block do not wrap within the block.
pub proof fn lemma_within_block(next: int, place: int, shard_size: int)
    requires
        0 < shard_size <= 256,
        0 <= next < paws_of(shard_size),
        next % shard_size == place,
    ensures
        0 < paws_of(shard_size) <= 0xffff_ffff,
        paws_of(shard_size) % shard_size == 0,
        next + (shard_size - place) <= paws_of(shard_size),
        (next + (shard_size - place)) % shard_size == 0,
{
    let q: int = 0xffff_ffffint / shard_size;
    let block = next / shard_size;
    assert(q * shard_size <= 0xffff_ffff && q * shard_size % shard_size == 0) by {
        vstd::arithmetic::div_mod::lemma_fundamental_div_mod(0xffff_ffff, shard_size);
        vstd::arithmetic::mul::lemma_mul_is_commutative(q, shard_size);
        vstd::arithmetic::div_mod::lemma_mod_multiples_basic(q, shard_size);
    }
    assert(next == shard_size * block + place) by {
        vstd::arithmetic::div_mod::lemma_fundamental_div_mod(next, shard_size);
    }
    assert(block < q) by (nonlinear_arith)
        requires
            next == shard_size * block + place,
            next < q * shard_size,
            place >= 0,
            shard_size > 0,
    ;
    assert(next + (shard_size - place) == (block + 1) * shard_size) by (nonlinear_arith)
        requires
            next == shard_size * block + place,
    ;
    assert((block + 1) * shard_size <= q * shard_size) by (nonlinear_arith)
        requires
            block < q,
            shard_size > 0,
    ;
    vstd::arithmetic::div_mod::lemma_mod_multiples_basic(block + 1, shard_size);
}

/// One more packet moves one place on in the block.
pub proof fn lemma_next_place(next: int, place: int, shard_size: int)
    requires
        0 < shard_size,
        0 <= next,
        next % shard_size == place,
        place + 1 < shard_size,
    ensures
        (next + 1) % shard_size == place + 1,
{
    vstd::arithmetic::div_mod::lemma_fundamental_div_mod(next, shard_size);
    assert(next / shard_size * shard_size + (place + 1) == next + 1) by (nonlinear_arith)
        requires
            next == shard_size * (next / shard_size) + place,
    ;
    vstd::arithmetic::div_mod::lemma_fundamental_div_mod_converse(
        next + 1,
        shard_size,
        next / shard_size,
        place + 1,
    );
}

impl FecEncoder {
    /// The fields agree with each other and the state is well formed.
    pub closed spec fn wf(&self) -> bool {
        &&& self@.wf()
        &&& self.shard_size == self.data_shards + self.parity_shards
        &&& self.paws == paws_of(self.shard_size as int)
    }

    /// The point from which the encoder counts its time.
    pub closed spec fn clock(&self) -> Instant {
        self.started
    }

    /// What a well-formed encoder shows is well formed.
    pub proof fn lemma_wf(&self)
        requires
            self.wf(),
        ensures
            self@.wf(),
    {
    }

    /// An encoder at packet number 0.
    pub fn new(data_shards: usize, parity_shards: usize) -> (res: Result<FecEncoder, FecError>)
        ensures
            res is Ok <==> valid_shards(data_shards as int, parity_shards as int),
            res is Err ==> res->Err_0 is InvalidShards,
            res is Ok ==> res->Ok_0.wf() && res->Ok_0@ == (EncoderState {
                data_shards: data_shards as nat,
                parity_shards: parity_shards as nat,
                next: 0,
                latest: None,
                shards: Seq::empty(),
            }),
    {
        if let Err(err) = validate_shards(data_shards, parity_shards) {
            return Err(err);
        }
        let shard_size: usize = data_shards + parity_shards;
        let paws: u32 = paws(shard_size);
        let encoder = FecEncoder {
            data_shards,
            parity_shards,
            shard_size,
            paws,
            next: 0,
            started: Instant::now(),
            ts_latest_packet: None,
            shards: Vec::new(),
        };
        proof {
            lemma_paws_positive(shard_size as int);
            assert(shard_views(encoder.shards@) =~= Seq::empty());
        }
        Ok(encoder)
    }

    /// Encodes `payload` at the time that the clock shows.
    pub fn encode(&mut self, payload: &[u8]) -> (res: Result<EncodedPackets, FecError>)
        requires
            old(self).wf(),
        ensures
            final(self).wf(),
            res is Ok <==> payload@.len() <= MAX_FEC_PAYLOAD,
            res is Err ==> res->Err_0 is PayloadTooLarge && final(self)@ == old(self)@,
            res is Ok ==> exists|elapsed: Duration| #[trigger]
                elapsed_reading(old(self).clock(), elapsed) && (
                    final(self)@,
                    shard_views(res->Ok_0.packets@),
                ) == old(self)@.encode(payload@, duration_nanos(elapsed)),
            res is Ok && res->Ok_0.packets@.len() > 1 ==> parity_shaped(
                old(self)@.shards.push(shard_of(payload@)),
                old(self)@.parity_shards,
            ),
            final(self).clock() == old(self).clock(),
    {
        let elapsed = self.started.elapsed();
        assert(elapsed_reading(old(self).clock(), elapsed));
        self.encode_at(payload, elapsed.as_nanos())
    }

    /// Encodes `payload` at time `now`, in nanoseconds of a clock that does not run
    /// backwards.
    pub fn encode_at(&mut self, payload: &[u8], now: u128) -> (res: Result<
        EncodedPackets,
        FecError,
    >)
        requires
            old(self).wf(),
        ensures
            final(self).wf(),
            res is Ok <==> payload@.len() <= MAX_FEC_PAYLOAD,
            res is Err ==> res->Err_0 is PayloadTooLarge && final(self)@ == old(self)@,
            res is Ok ==> (final(self)@, shard_views(res->Ok_0.packets@)) == old(self)@.encode(
                payload@,
                now as nat,
            ),
            res is Ok && res->Ok_0.packets@.len() > 1 ==> parity_shaped(
                old(self)@.shards.push(shard_of(payload@)),
                old(self)@.parity_shards,
            ),
            final(self).clock() == old(self).clock(),
    {
        if payload.len() > MAX_FEC_PAYLOAD {
            return Err(FecError::PayloadTooLarge);
        }
        let ghost before = self@;
        let ghost filled = before.shards.push(shard_of(payload@));
        proof {
            let place = before.shards.len() as int;
            let paws = self.paws as int;
            lemma_within_block(before.next as int, place, self.shard_size as int);
            lemma_next_place(before.next as int, place, self.shard_size as int);
            vstd::arithmetic::div_mod::lemma_small_mod((before.next + 1) as nat, paws as nat);
            if place + 1 == before.data_shards {
                let end = before.next + 1 + before.parity_shards;
                if end < paws {
                    vstd::arithmetic::div_mod::lemma_small_mod(end as nat, paws as nat);
                } else {
                    vstd::arithmetic::div_mod::lemma_mod_self_0(paws);
                }
                vstd::arithmetic::div_mod::lemma_small_mod(0, before.shard_size() as nat);
            }
        }
        let mut shard: Vec<u8> = Vec::new();
        put_le16(&mut shard, (payload.len() + 2) as u16);
        put_bytes(&mut shard, payload);
        let mut data: Vec<u8> = Vec::new();
        self.seal(&mut data, TYPE_DATA);
        put_bytes(&mut data, shard.as_slice());
        assert(data@ =~= data_packet(before.next as int, payload@));
        self.shards.push(shard);
        assert(shard_views(self.shards@) =~= filled);
        let mut packets: Vec<Vec<u8>> = Vec::new();
        packets.push(data);
        assert(shard_views(packets@) =~= seq![data_packet(before.next as int, payload@)]);
        if self.shards.len() == self.data_shards {
            let continuous = match self.ts_latest_packet {
                Some(latest) => now.saturating_sub(latest) < MAX_FEC_ENCODE_LATENCY,
                None => false,
            };
            if !continuous {
                self.shards.clear();
                self.skip_parity();
                self.ts_latest_packet = Some(now);
                assert(shard_views(self.shards@) =~= Seq::empty());
                return Ok(EncodedPackets { packets });
            }
            let mut block: Vec<Vec<u8>> = Vec::new();
            std::mem::swap(&mut block, &mut self.shards);
            proof {
                assert forall|i: int| 0 <= i < block@.len() implies 0 < (
                #[trigger] block@[i])@.len() by {
                    assert(filled[i] == block@[i]@);
                }
                assert(shard_views(self.shards@) =~= Seq::empty());
            }
            let parity = parity_of(block, self.parity_shards);
            let mut sealed = seal_parity(self.next, &parity);
            proof {
                let paws = self.paws as int;
                assert forall|j: int|
                    0 <= j < before.parity_shards implies #[trigger] before.parity_packets(
                    filled,
                )[j] == shard_views(sealed@)[j] by {
                    vstd::arithmetic::div_mod::lemma_small_mod(
                        (before.next + 1 + j) as nat,
                        paws as nat,
                    );
                }
                assert(shard_views(sealed@) =~= before.parity_packets(filled));
            }
            let ghost data = packets@;
            let ghost more = sealed@;
            packets.append(&mut sealed);
            self.skip_parity();
            assert(shard_views(packets@) =~= shard_views(data) + shard_views(more));
            assert(shard_views(packets@) =~= seq![data_packet(before.next as int, payload@)]
                + before.parity_packets(filled));
        }
        self.ts_latest_packet = Some(now);
        Ok(EncodedPackets { packets })
    }

    /// Starts a packet of type `flag`: appends the header with the next number.
    fn seal(&mut self, packet: &mut Vec<u8>, flag: u16)
        requires
            old(self).next < old(self).paws,
        ensures
            final(packet)@ == old(packet)@ + header(old(self).next as int, flag),
            final(self).next == (old(self).next + 1) % (old(self).paws as int),
            *final(self) == (FecEncoder { next: final(self).next, ..*old(self) }),
    {
        put_le32(packet, self.next);
        put_le16(packet, flag);
        self.next = (self.next + 1) % self.paws;
        assert(packet@ =~= old(packet)@ + header(old(self).next as int, flag));
    }

    /// Passes over the numbers of the parity packets of a block.
    fn skip_parity(&mut self)
        requires
            old(self).paws > 0,
            old(self).next + old(self).parity_shards <= u32::MAX,
        ensures
            final(self).next == (old(self).next + old(self).parity_shards) % (old(
                self,
            ).paws as int),
            *final(self) == (FecEncoder { next: final(self).next, ..*old(self) }),
    {
        self.next = (self.next + self.parity_shards as u32) % self.paws;
    }
}

/// The parity packets for the parity shards `parity`, numbered from `first` on.
pub fn seal_parity(first: u32, parity: &Vec<Vec<u8>>) -> (packets: Vec<Vec<u8>>)
    requires
        first + parity@.len() <= u32::MAX,
    ensures
        shard_views(packets@) == Seq::new(
            parity@.len(),
            |j: int| parity_packet(first + j, shard_views(parity@)[j]),
        ),
{
    let ghost sealed = Seq::new(
        parity@.len(),
        |j: int| parity_packet(first + j, shard_views(parity@)[j]),
    );
    let mut packets: Vec<Vec<u8>> = Vec::new();
    let count: usize = parity.len();
    assert(shard_views(packets@) =~= sealed.take(0));
    for j in 0..count
        invariant
            count == parity@.len(),
            first + count <= u32::MAX,
            sealed == Seq::new(
                parity@.len(),
                |j: int| parity_packet(first + j, shard_views(parity@)[j]),
            ),
            shard_views(packets@) == sealed.take(j as int),
    {
        let mut packet: Vec<u8> = Vec::new();
        put_le32(&mut packet, first + j as u32);
        put_le16(&mut packet, TYPE_PARITY);
        put_bytes(&mut packet, parity[j].as_slice());
        assert(packet@ =~= sealed[j as int]);
        let ghost so_far = packets@;
        packets.push(packet);
        assert(shard_views(packets@) =~= shard_views(so_far).push(sealed[j as int]));
        assert(sealed.take(j + 1) =~= sealed.take(j as int).push(sealed[j as int]));
    }
    assert(sealed.take(count as int) =~= sealed);
    packets
}

/// The parity shards of the block with the data shards `block`.
fn parity_of(block: Vec<Vec<u8>>, parity: usize) -> (shards: Vec<Vec<u8>>)
    requires
        valid_shards(block@.len() as int, parity as int),
        forall|i: int| 0 <= i < block@.len() ==> 0 < (#[trigger] block@[i])@.len(),
    ensures
        shards@.len() == parity,
        shard_views(shards@) == rs_parity(padded_all(shard_views(block@)), parity as nat),
        parity_shaped(shard_views(block@), parity as nat),
{
    let data: usize = block.len();
    let ghost views = shard_views(block@);
    let ghost len = longest(all_present(views));
    let mut max_len: usize = 0;
    for i in 0..data
        invariant
            data == block@.len(),
            views == shard_views(block@),
            max_len == longest(all_present(views.take(i as int))),
    {
        if block[i].len() > max_len {
            max_len = block[i].len();
        }
        assert(all_present(views.take(i + 1)).drop_last() =~= all_present(views.take(i as int)));
        assert(all_present(views.take(i + 1)).last() == Some(views[i as int]));
    }
    assert(views.take(data as int) =~= views);
    proof {
        lemma_longest_bounds(all_present(views));
        assert(all_present(views)[0] is Some);
    }
    let mut whole: Vec<Vec<u8>> = Vec::new();
    for i in 0..data
        invariant
            data == block@.len(),
            views == shard_views(block@),
            len == max_len,
            len == longest(all_present(views)),
            shard_views(whole@) == padded_all(views).take(i as int),
    {
        proof {
            lemma_longest_bounds(all_present(views));
            assert(all_present(views)[i as int] == Some(views[i as int]));
        }
        let shard = padded_copy(block[i].as_slice(), max_len);
        let ghost so_far = whole@;
        whole.push(shard);
        assert(shard_views(whole@) =~= shard_views(so_far).push(shard@));
        assert(shard_views(whole@) =~= padded_all(views).take(i + 1));
    }
    for j in 0..parity
        invariant
            len == max_len,
            data == views.len(),
            whole@.len() == data + j,
            shard_views(whole@).take(data as int) == padded_all(views),
            all_of_len(shard_views(whole@).skip(data as int), len as int),
    {
        let ghost so_far = whole@;
        whole.push(vec![0; max_len]);
        assert(shard_views(whole@) =~= shard_views(so_far).push(whole@.last()@));
        assert(shard_views(whole@).take(data as int) =~= shard_views(so_far).take(data as int));
        assert(shard_views(whole@).skip(data as int) =~= shard_views(so_far).skip(
            data as int,
        ).push(whole@.last()@));
    }
    proof {
        let all = shard_views(whole@);
        assert forall|i: int| 0 <= i < all.len() implies (#[trigger] all[i]).len() == len by {
            if i < data {
                assert(all.take(data as int)[i] == padded_all(views)[i]);
            } else {
                assert(all.skip(data as int)[i - data] == all[i]);
            }
        }
        assert(whole@[0]@ == all[0]);
    }
    let ghost before = whole@;
    let _ = rs_encode(data, parity, &mut whole);
    let ghost encoded = shard_views(whole@);
    let shards = whole.split_off(data);
    assert(shard_views(shards@) =~= encoded.skip(data as int));
    proof {
        assert forall|j: int| 0 <= j < parity implies (
        #[trigger] encoded.skip(data as int)[j]).len() == len by {
            assert(encoded[data + j].len() == len);
        }
    }
    shards
}

} // verus!
