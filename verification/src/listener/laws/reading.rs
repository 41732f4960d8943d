//! What a listener reads in a datagram, byte by byte.

use crate::listener::{has_size_field, route_of, routes, Route};
use crate::wire::le32_at;
use vstd::prelude::*;

verus! {

/// Where the segments of a datagram begin for a listener: with forward error correction,
/// behind the eight bytes in front of the payload of a data packet, else at the start.
pub open spec fn segments_at(packet: Seq<u8>, fec: bool) -> int {
    if fec && packet.len() >= 6 && packet[4] == 0xf1 && packet[5] == 0 {
        8
    } else {
        0
    }
}

/// With forward error correction on, parity packets are told by their mark. Any other
/// datagram is too short if it has no room for the 24 bytes of a segment header; else the
/// conversation number are the first four bytes of the header, and the segment number the
/// four bytes at offset 12, least significant byte first.
pub proof fn law_route_is_read_from_the_bytes(packet: Seq<u8>, fec: bool)
    requires
        has_size_field(packet, fec),
    ensures
        ({
            let at = segments_at(packet, fec);
            let parity = fec && packet.len() >= 6 && packet[4] == 0xf2 && packet[5] == 0;
            let route = route_of(packet, fec);
            &&& route is Parity <==> parity
            &&& route is TooShort <==> !parity && packet.len() < at + 24
            &&& !parity && packet.len() >= at + 24 ==> {
                &&& route is Segment
                &&& route->conv == packet[at] + 256 * packet[at + 1] + 65536 * packet[at + 2]
                    + 16777216 * packet[at + 3]
                &&& route->sn == packet[at + 12] + 256 * packet[at + 13] + 65536 * packet[at + 14]
                    + 16777216 * packet[at + 15]
            }
        }),
{
    let at = segments_at(packet, fec);
    if packet.len() >= at + 24 {
        let part = packet.skip(at);
        assert(at == 0 ==> part =~= packet);
        assert(le32_at(part, 0) == le32_at(packet, at));
        assert(le32_at(part, 12) == le32_at(packet, at + 12));
    }
}

/// A datagram is changed on its way only if it asks for a conversation number, which is 0
/// in its place; the number that it gets is not 0, and its segment number stays.
pub proof fn law_only_missing_numbers_are_filled_in(
    packet: Seq<u8>,
    fec: bool,
    after: Seq<u8>,
    route: Route,
)
    requires
        has_size_field(packet, fec),
        routes(packet, fec, after, route),
    ensures
        route is Segment ==> route->conv != 0 && route->sn == le32_at(
            packet,
            segments_at(packet, fec) + 12,
        ),
        route is Segment && le32_at(packet, segments_at(packet, fec)) != 0 ==> after == packet
            && route->conv == le32_at(packet, segments_at(packet, fec)),
        !(route is Segment) ==> after == packet && route == route_of(packet, fec),
{
    law_route_is_read_from_the_bytes(packet, fec);
}

} // verus!
