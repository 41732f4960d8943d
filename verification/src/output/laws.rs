//! What holds of the way out.

use crate::codec::shard_views;
use crate::config::KcpConfig;
use crate::error::FecError;
use crate::fec::packet::data_packet;
use crate::output::Outbound;
use vstd::prelude::*;

verus! {

/// Without forward error correction a packet leaves as it is, alone.
pub proof fn law_plain_packets_leave_as_they_are(
    config: &KcpConfig,
    made: Result<Outbound, FecError>,
    out: &mut Outbound,
    packet: Vec<u8>,
    res: Result<Vec<Vec<u8>>, FecError>,
)
    requires
        config.fec.data_shards == 0 || config.fec.parity_shards == 0,
        call_ensures(Outbound::new, (config,), made),
        made is Ok ==> *old(out) == made->Ok_0,
        call_ensures(Outbound::datagrams, (out, packet), res),
    ensures
        made is Ok,
        res is Ok,
        shard_views(res->Ok_0@) == seq![packet@],
        final(out)@ is None,
{
}

/// With forward error correction the first datagram of a packet is its data packet, with
/// the next number; parity packets may follow it, all or none, and only where it fills its
/// block. A packet that does not fit the size field is an error and changes nothing.
pub proof fn law_packets_leave_as_data_packets(
    out: &mut Outbound,
    packet: Vec<u8>,
    res: Result<Vec<Vec<u8>>, FecError>,
)
    requires
        old(out)@ is Some,
        old(out)@->0.wf(),
        call_ensures(Outbound::datagrams, (out, packet), res),
    ensures
        ({
            let encoder = old(out)@->0;
            let datagrams = shard_views(res->Ok_0@);
            &&& res is Err <==> packet@.len() > 65533
            &&& res is Err ==> res->Err_0 is PayloadTooLarge && final(out)@ == old(out)@
            &&& res is Ok ==> {
                &&& datagrams.len() == 1 || datagrams.len() == 1 + encoder.parity_shards
                    && encoder.shards.len() + 1 == encoder.data_shards
                &&& datagrams[0] == data_packet(encoder.next as int, packet@)
            }
        }),
{
}

} // verus!
