//! What a new connection starts with.

use crate::config::KcpConfig;
use crate::fec::decoder::DecoderState;
use crate::skcp::KcpSocket;
use vstd::prelude::*;

verus! {

/// A new connection has the packet size, the pace and the windows that it was configured
/// with: a fragment carries what the 24 bytes of a segment header, and the eight of forward
/// error correction if that is on, leave of a packet; updates come every 10 to 5000
/// milliseconds; a send window of zero is the one that KCP starts with, and so is a receive
/// window of zero, which is never smaller than 128.
pub proof fn law_new_connection_is_as_configured(
    c: &KcpConfig,
    conv: u32,
    stream: bool,
    now_ms: u64,
)
    requires
        c.fault() is None,
    ensures
        ({
            let state = KcpSocket::start(c, conv, stream, now_ms);
            let taken: int = if c.fec.data_shards != 0 && c.fec.parity_shards != 0 {
                32
            } else {
                24
            };
            &&& state.link.mss == c.mtu - taken
            &&& state.link.stream == stream
            &&& state.link.nodelay == c.nodelay.nodelay
            &&& state.link.nocwnd == c.nodelay.nc
            &&& c.nodelay.resend >= 0 ==> state.link.fast_resend == c.nodelay.resend
            &&& 10 <= state.link.interval <= 5000
            &&& 10 <= c.nodelay.interval <= 5000 ==> state.link.interval == c.nodelay.interval
            &&& c.nodelay.interval < 10 ==> state.link.interval == 10
            &&& c.nodelay.interval > 5000 ==> state.link.interval == 5000
            &&& state.update_interval_ms == state.link.interval
            &&& c.wnd_size.0 > 0 ==> state.link.snd_wnd == c.wnd_size.0
            &&& c.wnd_size.0 == 0 ==> state.link.snd_wnd == 32
            &&& c.wnd_size.1 >= 128 ==> state.link.rcv_wnd == c.wnd_size.1
            &&& c.wnd_size.1 < 128 ==> state.link.rcv_wnd == 128
        }),
{
}

/// A new connection has the conversation number that it was given, or waits for one if that
/// is 0; nothing is queued, in flight or received, nobody waits, and it is open.
pub proof fn law_new_connection_is_idle(c: &KcpConfig, conv: u32, stream: bool, now_ms: u64)
    requires
        c.fault() is None,
    ensures
        ({
            let state = KcpSocket::start(c, conv, stream, now_ms);
            &&& state.link.conv == conv
            &&& state.link.waiting_conv <==> conv == 0
            &&& state.link.updated
            &&& state.link.in_flight == 0
            &&& state.link.queue.len() == 0
            &&& state.link.received.len() == 0
            &&& state.last_update_ms == now_ms
            &&& !state.sent_first && !state.closed
            &&& !state.pending_sender && !state.pending_receiver
            &&& !state.wakes.sender && !state.wakes.receiver
            &&& state.flush_write == c.flush_write
            &&& state.flush_ack_input == c.flush_acks_input
            &&& state.allow_recv_empty_packet == c.allow_recv_empty_packet
        }),
{
}

/// A new connection has a decoder exactly if both shard counts are there: an empty one with
/// these counts.
pub proof fn law_new_connection_has_its_decoder(
    c: &KcpConfig,
    conv: u32,
    stream: bool,
    now_ms: u64,
)
    requires
        c.fault() is None,
    ensures
        ({
            let state = KcpSocket::start(c, conv, stream, now_ms);
            let on = c.fec.data_shards != 0 && c.fec.parity_shards != 0;
            &&& state.fec is Some <==> on
            &&& on ==> state.fec == Some(
                DecoderState {
                    data_shards: c.fec.data_shards as nat,
                    parity_shards: c.fec.parity_shards as nat,
                    newest: 0,
                    sets: Map::empty(),
                },
            ) && state.fec->0.wf()
        }),
{
}

} // verus!
