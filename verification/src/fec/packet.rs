//! The layout of packets and blocks.

use crate::codec::{longest, valid_shards};
use crate::error::FecError;
use crate::wire::{le16_at, le16_bytes, le32_at, le32_bytes, put_bytes, read_le16, read_le32};
use vstd::prelude::*;

verus! {

/// Packet number and packet type.
pub const FEC_HEADER_SIZE: usize = 6;

/// The header and the payload size of a data packet.
pub const FEC_HEADER_SIZE_PLUS_SIZE: usize = 8;

/// The packet type of a data packet.
pub const TYPE_DATA: u16 = 0xf1;

/// The packet type of a parity packet.
pub const TYPE_PARITY: u16 = 0xf2;

/// Data packets further apart than this get no parity, in nanoseconds.
pub const MAX_FEC_ENCODE_LATENCY: u128 = 500_000_000;

/// The largest payload that fits the 16-bit size field, which counts itself.
pub const MAX_FEC_PAYLOAD: usize = 65533;

/// The header of packet number `seq` of type `flag`.
pub open spec fn header(seq: int, flag: u16) -> Seq<u8> {
    le32_bytes(seq) + le16_bytes(flag as int)
}

/// What a data packet carries behind its header: its own size and the payload.
pub open spec fn shard_of(payload: Seq<u8>) -> Seq<u8> {
    le16_bytes(payload.len() as int + 2) + payload
}

/// The data packet with number `seq` for `payload`.
pub open spec fn data_packet(seq: int, payload: Seq<u8>) -> Seq<u8> {
    header(seq, TYPE_DATA) + shard_of(payload)
}

/// The parity packet with number `seq` for the parity shard `shard`.
pub open spec fn parity_packet(seq: int, shard: Seq<u8>) -> Seq<u8> {
    header(seq, TYPE_PARITY) + shard
}

/// `shard`, brought to `len` bytes with zeros.
pub open spec fn padded(shard: Seq<u8>, len: int) -> Seq<u8> {
    Seq::new(
        len as nat,
        |i: int|
            if i < shard.len() {
                shard[i]
            } else {
                0u8
            },
    )
}

/// A block of which no shard is missing.
pub open spec fn all_present(shards: Seq<Seq<u8>>) -> Seq<Option<Seq<u8>>> {
    Seq::new(shards.len(), |i: int| Some(shards[i]))
}

/// Every shard, brought to the length of the longest.
pub open spec fn padded_all(shards: Seq<Seq<u8>>) -> Seq<Seq<u8>> {
    Seq::new(
        shards.len(),
        |i: int| padded(shards[i], longest(all_present(shards)) as int),
    )
}

/// Packet numbers run from 0 up to this, then start over: the largest multiple of
/// the block size that 32 bits hold.
pub open spec fn paws_of(shard_size: int) -> int {
    0xffff_ffffint / shard_size * shard_size
}

/// There is room for at least one block of numbers.
pub proof fn lemma_paws_positive(shard_size: int)
    requires
        0 < shard_size <= 256,
    ensures
        shard_size <= paws_of(shard_size) <= 0xffff_ffff,
{
    let q: int = 0xffff_ffffint / shard_size;
    assert(q >= 1) by (nonlinear_arith)
        requires
            q == 0xffff_ffffint / shard_size,
            0 < shard_size <= 256,
    ;
    assert(q * shard_size >= shard_size) by (nonlinear_arith)
        requires
            q >= 1,
            shard_size > 0,
    ;
    vstd::arithmetic::div_mod::lemma_fundamental_div_mod(0xffff_ffff, shard_size);
    vstd::arithmetic::mul::lemma_mul_is_commutative(q, shard_size);
}

/// The number at which packet numbers start over.
pub(crate) fn paws(shard_size: usize) -> (paws: u32)
    requires
        0 < shard_size <= 256,
    ensures
        paws == paws_of(shard_size as int),
{
    proof {
        lemma_paws_positive(shard_size as int);
    }
    let size: u32 = shard_size as u32;
    0xffff_ffffu32 / size * size
}

/// Rejects shard counts that no block can have.
pub(crate) fn validate_shards(data_shards: usize, parity_shards: usize) -> (res: Result<
    (),
    FecError,
>)
    ensures
        res is Ok <==> valid_shards(data_shards as int, parity_shards as int),
        res is Err ==> res->Err_0 is InvalidShards,
{
    if data_shards == 0 || parity_shards == 0 || data_shards > 256 || parity_shards > 256
        - data_shards {
        return Err(FecError::InvalidShards);
    }
    Ok(())
}

/// A copy of `shard`, brought to `len` bytes with zeros.
pub(crate) fn padded_copy(shard: &[u8], len: usize) -> (copy: Vec<u8>)
    requires
        shard@.len() <= len,
    ensures
        copy@ == padded(shard@, len as int),
{
    let mut copy: Vec<u8> = Vec::new();
    put_bytes(&mut copy, shard);
    copy.resize(len, 0);
    assert(copy@ =~= padded(shard@, len as int)) by {
        assert forall|i: int| 0 <= i < len implies #[trigger] copy@[i] == padded(
            shard@,
            len as int,
        )[i] by {
            if i < shard@.len() {
                assert(copy@.subrange(0, shard@.len() as int)[i] == shard@[i]);
            }
        }
    }
    copy
}

/// No shard is longer than the longest one, and one of them is that long.
pub proof fn lemma_longest_bounds(slots: Seq<Option<Seq<u8>>>)
    ensures
        forall|i: int|
            0 <= i < slots.len() && slots[i] is Some ==> (#[trigger] slots[i])->0.len() <= longest(
                slots,
            ),
        longest(slots) > 0 ==> exists|i: int|
            0 <= i < slots.len() && slots[i] is Some && (#[trigger] slots[i])->0.len() == longest(
                slots,
            ),
    decreases slots.len(),
{
    if slots.len() > 0 {
        let rest = slots.drop_last();
        lemma_longest_bounds(rest);
        assert forall|i: int| 0 <= i < slots.len() && slots[i] is Some implies (
        #[trigger] slots[i])->0.len() <= longest(slots) by {
            if i < rest.len() {
                assert(rest[i] == slots[i]);
            }
        }
        if longest(slots) > 0 {
            if slots.last() is Some && slots.last()->0.len() > longest(rest) {
                assert(slots[slots.len() - 1]->0.len() == longest(slots));
            } else {
                let i = choose|i: int|
                    0 <= i < rest.len() && rest[i] is Some && (#[trigger] rest[i])->0.len()
                        == longest(rest);
                assert(slots[i] == rest[i]);
            }
        }
    }
}

/// The type field of a packet, if it has one.
pub open spec fn flag_of(packet: Seq<u8>) -> Option<int> {
    if packet.len() >= FEC_HEADER_SIZE {
        Some(le16_at(packet, 4))
    } else {
        None
    }
}

/// `packet` is marked as a data packet.
pub open spec fn marked_data(packet: Seq<u8>) -> bool {
    flag_of(packet) == Some(TYPE_DATA as int)
}

/// `packet` is marked as a parity packet.
pub open spec fn marked_parity(packet: Seq<u8>) -> bool {
    flag_of(packet) == Some(TYPE_PARITY as int)
}

/// What a data packet carries, if `packet` is one and holds a payload.
pub open spec fn payload_of(packet: Seq<u8>) -> Option<Seq<u8>> {
    if marked_data(packet) && packet.len() >= FEC_HEADER_SIZE_PLUS_SIZE {
        Some(packet.skip(FEC_HEADER_SIZE_PLUS_SIZE as int))
    } else {
        None
    }
}

/// Is this a packet of either type?
pub fn is_fec_packet(packet: &[u8]) -> (is: bool)
    ensures
        is == (marked_data(packet@) || marked_parity(packet@)),
{
    match fec_flag(packet) {
        Some(flag) => flag == TYPE_DATA || flag == TYPE_PARITY,
        None => false,
    }
}

/// Is this a data packet?
pub fn is_data_packet(packet: &[u8]) -> (is: bool)
    ensures
        is == marked_data(packet@),
{
    match fec_flag(packet) {
        Some(flag) => flag == TYPE_DATA,
        None => false,
    }
}

/// Is this a parity packet?
pub fn is_parity_packet(packet: &[u8]) -> (is: bool)
    ensures
        is == marked_parity(packet@),
{
    match fec_flag(packet) {
        Some(flag) => flag == TYPE_PARITY,
        None => false,
    }
}

/// The payload of a data packet.
pub fn data_payload(packet: &[u8]) -> (payload: Option<&[u8]>)
    ensures
        match payload {
            Some(payload) => payload_of(packet@) == Some(payload@),
            None => payload_of(packet@) is None,
        },
{
    if is_data_packet(packet) && packet.len() >= FEC_HEADER_SIZE_PLUS_SIZE {
        Some(&packet[FEC_HEADER_SIZE_PLUS_SIZE..packet.len()])
    } else {
        None
    }
}

/// The payload of a data packet, to be changed in place.
pub fn data_payload_mut(packet: &mut [u8]) -> (payload: Option<&mut [u8]>)
    ensures
        match payload {
            Some(payload) => {
                &&& payload_of(old(packet)@) == Some(payload@)
                &&& final(packet)@ == old(packet)@.take(FEC_HEADER_SIZE_PLUS_SIZE as int)
                    + final(payload)@
            },
            None => payload_of(old(packet)@) is None && final(packet)@ == old(packet)@,
        },
{
    if is_data_packet(packet) && packet.len() >= FEC_HEADER_SIZE_PLUS_SIZE {
        let (_, payload) = packet.split_at_mut(FEC_HEADER_SIZE_PLUS_SIZE);
        Some(payload)
    } else {
        None
    }
}

/// The type field of a packet, if it has one.
fn fec_flag(packet: &[u8]) -> (flag: Option<u16>)
    ensures
        match flag {
            Some(flag) => flag_of(packet@) == Some(flag as int),
            None => flag_of(packet@) is None,
        },
{
    if packet.len() >= FEC_HEADER_SIZE {
        Some(read_le16(packet, 4))
    } else {
        None
    }
}

/// The packet number of a packet.
pub(crate) fn seqid(packet: &[u8]) -> (seq: u32)
    requires
        packet@.len() >= 4,
    ensures
        seq == le32_at(packet@, 0),
{
    read_le32(packet, 0)
}

} // verus!
