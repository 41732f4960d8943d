//! Forward error correction with the packet layout of kcp-go.
//!
//! A block is `data_shards` data packets followed by `parity_shards` parity packets.
//! Packets are numbered through; a packet's number tells its block and its place in
//! the block. As soon as `data_shards` packets of a block have come in, the payloads
//! of the missing data packets can be rebuilt.

pub mod block;
pub mod decoder;
pub mod encoder;
pub mod laws;
pub mod packet;

pub use decoder::{Decoded, DecoderState, FecDecoder};
pub use encoder::{EncodedPackets, EncoderState, FecEncoder};
pub use packet::{
    data_payload, data_payload_mut, is_data_packet, is_fec_packet, is_parity_packet,
    FEC_HEADER_SIZE, FEC_HEADER_SIZE_PLUS_SIZE, MAX_FEC_PAYLOAD, TYPE_DATA, TYPE_PARITY,
};
