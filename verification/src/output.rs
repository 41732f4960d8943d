//! The way out: what the packets that KCP writes become on the wire.

use crate::codec::shard_views;
use crate::config::KcpConfig;
use crate::error::FecError;
use crate::fec::block::parity_shaped;
use crate::fec::encoder::{EncoderState, FecEncoder};
use crate::fec::packet::{shard_of, MAX_FEC_PAYLOAD};
use crate::utils::{duration_nanos, elapsed_reading};
use std::time::Duration;
use std::time::Instant;
use vstd::prelude::*;

pub mod laws;

verus! {

/// How many packets may wait to be sent; more are dropped.
pub const OUTPUT_BACKLOG: usize = 2048;

/// Turns the packets of one connection into datagrams.
pub struct Outbound {
    encoder: Option<FecEncoder>,
}

impl View for Outbound {
    type V = Option<EncoderState>;

    closed spec fn view(&self) -> Option<EncoderState> {
        match self.encoder {
            Some(encoder) => Some(encoder@),
            None => None,
        }
    }
}

impl Outbound {
    /// The point from which the encoder counts its time, if there is one.
    pub closed spec fn clock(&self) -> Option<Instant> {
        match self.encoder {
            Some(encoder) => Some(encoder.clock()),
            None => None,
        }
    }

    /// The encoder is well formed.
    pub closed spec fn wf(&self) -> bool {
        match self.encoder {
            Some(encoder) => encoder.wf(),
            None => true,
        }
    }

    /// The way out for this configuration.
    pub fn new(config: &KcpConfig) -> (res: Result<Outbound, FecError>)
        ensures
            match res {
                Ok(out) => {
                    &&& out.wf()
                    &&& config.fec.spec_enabled() ==> config.fec.valid()
                    &&& out@ == if config.fec.spec_enabled() {
                        Some(
                            EncoderState {
                                data_shards: config.fec.data_shards as nat,
                                parity_shards: config.fec.parity_shards as nat,
                                next: 0,
                                latest: None,
                                shards: Seq::empty(),
                            },
                        )
                    } else {
                        None
                    }
                },
                Err(err) => {
                    &&& config.fec.spec_enabled() && !config.fec.valid()
                    &&& err is InvalidShards
                },
            },
    {
        if config.fec.enabled() {
            match FecEncoder::new(config.fec.data_shards, config.fec.parity_shards) {
                Ok(encoder) => Ok(Outbound { encoder: Some(encoder) }),
                Err(err) => Err(err),
            }
        } else {
            Ok(Outbound { encoder: None })
        }
    }

    /// The datagrams to send for `packet`, in order: without forward error correction the
    /// packet itself, with it what the encoder makes of it. A packet that is too large
    /// for the encoder is an error, and nothing is sent.
    pub fn datagrams(&mut self, packet: Vec<u8>) -> (res: Result<Vec<Vec<u8>>, FecError>)
        requires
            old(self).wf(),
        ensures
            final(self).wf(),
            match old(self)@ {
                Some(encoder) => if packet@.len() > MAX_FEC_PAYLOAD {
                    &&& res is Err && res->Err_0 is PayloadTooLarge
                    &&& final(self)@ == old(self)@
                } else {
                    &&& res is Ok
                    &&& old(self).clock() is Some
                    &&& exists|elapsed: Duration| #[trigger]
                        elapsed_reading(old(self).clock()->0, elapsed) && (
                            final(self)@,
                            shard_views(res->Ok_0@),
                        ) == (
                            Some(encoder.encode(packet@, duration_nanos(elapsed)).0),
                            encoder.encode(packet@, duration_nanos(elapsed)).1,
                        )
                    &&& res->Ok_0@.len() > 1 ==> parity_shaped(
                        encoder.shards.push(shard_of(packet@)),
                        encoder.parity_shards,
                    )
                },
                None => {
                    &&& res is Ok && shard_views(res->Ok_0@) == seq![packet@]
                    &&& final(self)@ == old(self)@
                },
            },
            final(self).clock() == old(self).clock(),
    {
        match &mut self.encoder {
            Some(encoder) => {
                let ghost before = encoder@;
                let ghost clock = encoder.clock();
                match encoder.encode(packet.as_slice()) {
                    Ok(encoded) => {
                        proof {
                            let elapsed = choose|elapsed: Duration| #[trigger]
                                elapsed_reading(clock, elapsed) && (
                                    encoder@,
                                    shard_views(encoded.packets@),
                                ) == before.encode(packet@, duration_nanos(elapsed));
                            assert(elapsed_reading(old(self).clock()->0, elapsed));
                        }
                        Ok(encoded.packets)
                    },
                    Err(err) => Err(err),
                }
            },
            None => {
                let mut packets: Vec<Vec<u8>> = Vec::new();
                packets.push(packet);
                assert(shard_views(packets@) =~= seq![packet@]);
                Ok(packets)
            },
        }
    }
}

} // verus!
