//! The header fields of a KCP packet that are read before KCP sees the packet.

use crate::wire::{le32_at, le32_bytes};
use vstd::prelude::*;

verus! {

/// The size of a KCP segment header.
pub open spec fn kcp_overhead_spec() -> usize {
    24
}

/// `kcp::KCP_OVERHEAD`: the size of a KCP segment header.
#[verifier::external_body]
pub(crate) fn kcp_overhead() -> (size: usize)
    ensures
        size == kcp_overhead_spec(),
{
    kcp::KCP_OVERHEAD
}

/// The conversation number of a KCP packet.
pub open spec fn conv_of(packet: Seq<u8>) -> u32 {
    le32_at(packet, 0) as u32
}

/// The number of the first segment of a KCP packet.
pub open spec fn sn_of(packet: Seq<u8>) -> u32 {
    le32_at(packet, 12) as u32
}

/// `packet` with the conversation number `conv`.
pub open spec fn with_conv(packet: Seq<u8>, conv: u32) -> Seq<u8> {
    le32_bytes(conv as int) + packet.skip(4)
}

/// `kcp::get_conv`: the 32-bit number at the start of a packet.
pub assume_specification[ kcp::get_conv ](buf: &[u8]) -> (conv: u32)
    requires
        buf@.len() >= 24,
    ensures
        conv == conv_of(buf@),
;

/// `kcp::get_sn`: the 32-bit number twelve bytes into a packet.
pub assume_specification[ kcp::get_sn ](buf: &[u8]) -> (sn: u32)
    requires
        buf@.len() >= 24,
    ensures
        sn == sn_of(buf@),
;

/// `kcp::set_conv`: overwrites the 32-bit number at the start of a packet.
pub assume_specification[ kcp::set_conv ](buf: &mut [u8], conv: u32)
    requires
        old(buf)@.len() >= 24,
    ensures
        final(buf)@ == with_conv(old(buf)@, conv),
;

} // verus!
