//! What a listener does with a datagram.

use crate::fec::packet::{marked_data, marked_parity, FEC_HEADER_SIZE_PLUS_SIZE};
use crate::fec::{data_payload, data_payload_mut, is_data_packet, is_parity_packet};
use crate::segment::{conv_of, kcp_overhead, kcp_overhead_spec, sn_of, with_conv};
use crate::session::manager::{can_ask, looks_up};
use crate::session::{fresh_conv, KcpSessionManager};
use vstd::prelude::*;

pub mod laws;

verus! {

/// Where a datagram goes.
#[derive(Debug, Clone, Copy, PartialEq, Eq, Structural)]
pub enum Route {
    /// It is too short to carry a segment, and is dropped.
    TooShort,
    /// It is a parity packet for the session of its peer, if there is one.
    Parity,
    /// It carries segments.
    Segment {
        /// The conversation number; 0 asks for one.
        conv: u32,
        /// The number of the first segment.
        sn: u32,
    },
}

/// The part of a datagram that KCP gets: the payload of a data packet if forward error
/// correction is on, else all of it.
pub open spec fn kcp_part(packet: Seq<u8>, fec: bool) -> Seq<u8> {
    if fec && marked_data(packet) {
        packet.skip(FEC_HEADER_SIZE_PLUS_SIZE as int)
    } else {
        packet
    }
}

/// `packet` with the part that KCP gets replaced by `part`.
pub open spec fn with_kcp_part(packet: Seq<u8>, fec: bool, part: Seq<u8>) -> Seq<u8> {
    if fec && marked_data(packet) {
        packet.take(FEC_HEADER_SIZE_PLUS_SIZE as int) + part
    } else {
        part
    }
}

/// A data packet has its size field.
pub open spec fn has_size_field(packet: Seq<u8>, fec: bool) -> bool {
    fec && marked_data(packet) ==> packet.len() >= FEC_HEADER_SIZE_PLUS_SIZE
}

/// Where `packet` goes.
pub open spec fn route_of(packet: Seq<u8>, fec: bool) -> Route {
    let part = kcp_part(packet, fec);
    if fec && marked_parity(packet) {
        Route::Parity
    } else if part.len() < kcp_overhead_spec() {
        Route::TooShort
    } else {
        Route::Segment { conv: conv_of(part), sn: sn_of(part) }
    }
}

/// `packet` with the conversation number `conv`.
pub open spec fn assigned(packet: Seq<u8>, fec: bool, conv: u32) -> Seq<u8> {
    with_kcp_part(packet, fec, with_conv(kcp_part(packet, fec), conv))
}

/// The datagram `before` goes to `route`, as the datagram `after`: one that asks for a
/// conversation number is given one that is not 0, any other stays as it is.
pub open spec fn routes(before: Seq<u8>, fec: bool, after: Seq<u8>, route: Route) -> bool {
    match route_of(before, fec) {
        Route::Segment { conv, sn } if conv == 0 => {
            &&& route matches Route::Segment { conv: fresh, sn: same }
            &&& fresh != 0
            &&& same == sn
            &&& after == assigned(before, fec, fresh)
        },
        other => route == other && after == before,
    }
}

/// Where `packet` goes.
pub fn inspect(packet: &[u8], fec: bool) -> (route: Route)
    requires
        has_size_field(packet@, fec),
    ensures
        route == route_of(packet@, fec),
{
    if fec && is_parity_packet(packet) {
        return Route::Parity;
    }
    let part = if fec && is_data_packet(packet) {
        match data_payload(packet) {
            Some(payload) => payload,
            None => packet,
        }
    } else {
        packet
    };
    if part.len() < kcp_overhead() {
        return Route::TooShort;
    }
    Route::Segment { conv: kcp::get_conv(part), sn: kcp::get_sn(part) }
}

/// Writes the conversation number `conv` into `packet`.
pub fn assign_conv(packet: &mut [u8], fec: bool, conv: u32)
    requires
        has_size_field(old(packet)@, fec),
        route_of(old(packet)@, fec) is Segment,
    ensures
        final(packet)@ == assigned(old(packet)@, fec, conv),
{
    if fec && is_data_packet(packet) {
        if let Some(payload) = data_payload_mut(packet) {
            kcp::set_conv(payload, conv);
        }
    } else {
        kcp::set_conv(packet, conv);
    }
}

/// Where `packet` goes; a packet that asks for a conversation number gets one, by chance.
pub fn route(packet: &mut [u8], fec: bool) -> (route: Route)
    requires
        has_size_field(old(packet)@, fec),
    ensures
        routes(old(packet)@, fec, final(packet)@, route),
{
    let found = inspect(packet, fec);
    match found {
        Route::Segment { conv, sn } => {
            if conv == 0 {
                let fresh: u32 = fresh_conv();
                assign_conv(packet, fec, fresh);
                return Route::Segment { conv: fresh, sn };
            }
            found
        },
        _ => found,
    }
}

/// What becomes of a packet once its peer has a session.
#[derive(Debug)]
pub enum Admission<S> {
    /// The packet goes to the session. The session that the peer had before, if its own
    /// is new, is handed out.
    Deliver(Option<S>),
    /// The packet is dropped: it belongs to another conversation than the session.
    Foreign,
    /// The packet is dropped, because nobody could be told of the new session; that
    /// session and the one before it are handed out.
    Refused(Option<S>, Option<S>),
}

/// What becomes of a packet for whose peer a session was looked up: of the table
/// `looked_up`, whether the session was `created`, and the one that it `replaced`.
pub open spec fn settles<S, F: Fn(&S) -> u32, H: FnOnce(&S) -> bool>(
    looked_up: Map<u64, S>,
    created: bool,
    replaced: Option<S>,
    peer: u64,
    conv: u32,
    conv_of: F,
    offer: H,
    after: Map<u64, S>,
    admission: Admission<S>,
) -> bool {
    if created {
        match admission {
            Admission::Deliver(before) => {
                &&& call_ensures(offer, (&looked_up[peer],), true)
                &&& after == looked_up
                &&& before == replaced
            },
            Admission::Refused(refused, before) => {
                &&& call_ensures(offer, (&looked_up[peer],), false)
                &&& after == looked_up.remove(peer)
                &&& refused == Some(looked_up[peer])
                &&& before == replaced
            },
            Admission::Foreign => false,
        }
    } else {
        exists|own: u32| #[trigger]
            call_ensures(conv_of, (&looked_up[peer],), own) && after == looked_up && (if own
                == conv {
                admission == Admission::<S>::Deliver(None)
            } else {
                admission is Foreign
            })
    }
}

/// Finds or makes the session for a packet with segment number `sn` of conversation
/// `conv` from `peer`, and tells whether the packet goes to it.
///
/// `offer` is told of a new session; if it does not take it, the peer has none.
pub fn settle<S, E, F: Fn(&S) -> u32, G: FnOnce() -> Result<S, E>, H: FnOnce(&S) -> bool>(
    sessions: &mut KcpSessionManager<S>,
    peer: u64,
    conv: u32,
    sn: u32,
    conv_of: &F,
    make: G,
    offer: H,
) -> (res: Result<Admission<S>, E>)
    requires
        can_ask(*conv_of),
        call_requires(make, ()),
        forall|session: &S| #[trigger] call_requires(offer, (session,)),
    ensures
        exists|looked_up: Map<u64, S>, found: Result<(bool, Option<S>), E>| #[trigger]
            looks_up(
                old(sessions)@,
                peer,
                conv,
                sn,
                *conv_of,
                make,
                looked_up,
                found,
            ) && match found {
                Ok((created, replaced)) => res is Ok && looked_up.contains_key(peer) && settles(
                    looked_up,
                    created,
                    replaced,
                    peer,
                    conv,
                    *conv_of,
                    offer,
                    final(sessions)@,
                    res->Ok_0,
                ),
                Err(err) => res == Err::<Admission<S>, E>(err) && final(sessions)@ == looked_up,
            },
{
    let found = sessions.get_or_create(peer, conv, sn, conv_of, make);
    let (created, replaced) = match found {
        Ok(found) => found,
        Err(err) => return Err(err),
    };
    let ghost looked_up = sessions@;
    match sessions.get(peer) {
        Some(session) => {
            if created {
                if offer(session) {
                    return Ok(Admission::Deliver(replaced));
                }
            } else {
                let own: u32 = conv_of(session);
                if own == conv {
                    return Ok(Admission::Deliver(None));
                }
                return Ok(Admission::Foreign);
            }
        },
        None => {
            assert(false);
        },
    }
    let refused = sessions.close_peer(peer);
    Ok(Admission::Refused(refused, replaced))
}

} // verus!
