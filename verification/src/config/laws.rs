//! Which configurations are usable.

use crate::config::KcpConfig;
use crate::error::{ConfigError, FecError};
use crate::fec::{FecDecoder, FecEncoder};
use vstd::prelude::*;

verus! {

/// Forward error correction is on exactly if both shard counts are there.
pub open spec fn fec_is_on(c: KcpConfig) -> bool {
    c.fec.data_shards != 0 && c.fec.parity_shards != 0
}

/// A configuration is usable exactly if its shard counts are both zero, or both not and no
/// more than 256 in all, and a packet has 50 bytes or more for KCP, behind the eight bytes
/// that forward error correction takes if it is on. The shard counts are looked at first.
pub proof fn law_usable_configurations(c: KcpConfig)
    ensures
        ({
            let data = c.fec.data_shards;
            let parity = c.fec.parity_shards;
            let shards_fit = data == 0 && parity == 0 || data != 0 && parity != 0 && data + parity
                <= 256;
            let taken: int = if fec_is_on(c) {
                8
            } else {
                0
            };
            &&& c.fault() is None <==> shards_fit && c.mtu >= taken + 50
            &&& c.fault() == Some(ConfigError::InvalidShards) <==> !shards_fit
            &&& c.fault() == Some(ConfigError::MtuTooSmallForFec) <==> shards_fit && c.mtu < taken
            &&& c.fault() == Some(ConfigError::InvalidMtu) <==> shards_fit && taken <= c.mtu < taken
                + 50
        }),
{
}

/// Validating accepts exactly the usable configurations, and tells what is wrong with any
/// other.
pub proof fn law_validating(c: &KcpConfig, res: Result<(), ConfigError>)
    requires
        call_ensures(KcpConfig::validate, (c,), res),
    ensures
        ({
            let data = c.fec.data_shards;
            let parity = c.fec.parity_shards;
            let shards_fit = data == 0 && parity == 0 || data != 0 && parity != 0 && data + parity
                <= 256;
            let taken: int = if fec_is_on(*c) {
                8
            } else {
                0
            };
            &&& res is Ok <==> shards_fit && c.mtu >= taken + 50
            &&& res is Err ==> (res->Err_0 == ConfigError::InvalidShards <==> !shards_fit)
            &&& res is Err && shards_fit ==> (res->Err_0 == ConfigError::MtuTooSmallForFec
                <==> c.mtu < taken)
        }),
{
    law_usable_configurations(*c);
}

/// Encoders and decoders are made exactly with shard counts that make a block.
pub proof fn law_shards_that_make_a_block(
    data: usize,
    parity: usize,
    encoder: Result<FecEncoder, FecError>,
    decoder: Result<FecDecoder, FecError>,
)
    requires
        call_ensures(FecEncoder::new, (data, parity), encoder),
        call_ensures(FecDecoder::new, (data, parity), decoder),
    ensures
        encoder is Ok <==> data > 0 && parity > 0 && data + parity <= 256,
        decoder is Ok <==> encoder is Ok,
        encoder is Err ==> encoder->Err_0 is InvalidShards,
        decoder is Err ==> decoder->Err_0 is InvalidShards,
        encoder is Ok ==> encoder->Ok_0@.next == 0 && encoder->Ok_0@.latest is None
            && encoder->Ok_0@.shards.len() == 0 && encoder->Ok_0@.data_shards == data
            && encoder->Ok_0@.parity_shards == parity,
        decoder is Ok ==> decoder->Ok_0@.newest == 0 && decoder->Ok_0@.sets.dom()
            == Set::<u32>::empty() && decoder->Ok_0@.data_shards == data
            && decoder->Ok_0@.parity_shards == parity,
{
}

} // verus!
