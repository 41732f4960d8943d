//! What holds of routing.

use crate::fec::packet::{marked_data, FEC_HEADER_SIZE_PLUS_SIZE};
use crate::listener::{
    assigned, has_size_field, kcp_part, route_of, routes, settles, Admission, Route,
};
use crate::segment::with_conv;
use crate::session::manager::{calls_for_new, looks_up};
use crate::wire::{le32_bytes, lemma_le32_roundtrip};
use vstd::prelude::*;

pub mod admission;
pub mod operations;
pub mod reading;

verus! {

/// A packet that was given a conversation number is routed by that number, and nothing
/// else about its route changes.
pub proof fn law_assigned_number_is_found_again(packet: Seq<u8>, fec: bool, conv: u32)
    requires
        has_size_field(packet, fec),
        route_of(packet, fec) is Segment,
    ensures
        has_size_field(assigned(packet, fec, conv), fec),
        assigned(packet, fec, conv).len() == packet.len(),
        route_of(assigned(packet, fec, conv), fec) == (Route::Segment {
            conv,
            sn: route_of(packet, fec)->sn,
        }),
{
    let part = kcp_part(packet, fec);
    let given = assigned(packet, fec, conv);
    let bytes = le32_bytes(conv as int);
    lemma_le32_roundtrip(conv as int);
    assert(bytes.len() == 4);
    assert forall|i: int| 4 <= i < part.len() implies #[trigger] with_conv(part, conv)[i]
        == part[i] by {}
    assert(given[4] == packet[4] && given[5] == packet[5]);
    let again = kcp_part(given, fec);
    assert(again =~= with_conv(part, conv));
    assert(again[0] == bytes[0] && again[1] == bytes[1] && again[2] == bytes[2] && again[3]
        == bytes[3]);
}

/// Looking up a session for one peer leaves the sessions of all other peers alone.
pub proof fn law_other_peers_are_left_alone<
    S,
    E,
    F: Fn(&S) -> u32,
    G: FnOnce() -> Result<S, E>,
    H: FnOnce(&S) -> bool,
>(
    before: Map<u64, S>,
    peer: u64,
    conv: u32,
    sn: u32,
    conv_of: F,
    make: G,
    offer: H,
    looked_up: Map<u64, S>,
    created: bool,
    replaced: Option<S>,
    after: Map<u64, S>,
    admission: Admission<S>,
    other: u64,
)
    requires
        looks_up(
            before,
            peer,
            conv,
            sn,
            conv_of,
            make,
            looked_up,
            Ok::<(bool, Option<S>), E>((created, replaced)),
        ),
        settles(looked_up, created, replaced, peer, conv, conv_of, offer, after, admission),
        other != peer,
    ensures
        after.contains_key(other) == before.contains_key(other),
        before.contains_key(other) ==> after[other] == before[other],
{
}

/// A packet that is not the first of its conversation never ends a session: it goes to
/// the session of its peer, or it is dropped.
pub proof fn law_running_session_is_kept<
    S,
    E,
    F: Fn(&S) -> u32,
    G: FnOnce() -> Result<S, E>,
    H: FnOnce(&S) -> bool,
>(
    before: Map<u64, S>,
    peer: u64,
    conv: u32,
    sn: u32,
    conv_of: F,
    make: G,
    offer: H,
    looked_up: Map<u64, S>,
    created: bool,
    replaced: Option<S>,
    after: Map<u64, S>,
    admission: Admission<S>,
)
    requires
        looks_up(
            before,
            peer,
            conv,
            sn,
            conv_of,
            make,
            looked_up,
            Ok::<(bool, Option<S>), E>((created, replaced)),
        ),
        settles(looked_up, created, replaced, peer, conv, conv_of, offer, after, admission),
        before.contains_key(peer),
        sn != 0,
    ensures
        after == before,
        !created,
        admission == Admission::<S>::Deliver(None) || admission is Foreign,
{
}

/// Where the conversation number stands in a datagram that carries segments.
pub open spec fn conv_at(packet: Seq<u8>, fec: bool) -> int {
    if fec && marked_data(packet) {
        FEC_HEADER_SIZE_PLUS_SIZE as int
    } else {
        0
    }
}

/// `conv_of` gives the number of a session as `number` does, and `make` makes sessions with
/// the number `conv`.
pub open spec fn tells_numbers<S, E, F: Fn(&S) -> u32, G: FnOnce() -> Result<S, E>>(
    number: spec_fn(S) -> u32,
    conv_of: F,
    make: G,
    conv: u32,
) -> bool {
    &&& forall|session: &S, found: u32| #[trigger]
        call_ensures(conv_of, (session,), found) ==> found == number(*session)
    &&& forall|session: S| #[trigger]
        call_ensures(make, (), Ok::<S, E>(session)) ==> number(session) == conv
}

/// A datagram that goes to a session carries that session's number, which is not 0. It is
/// the datagram that came in, but for the bytes of the number, and for these only if the
/// datagram asked for one.
pub proof fn law_delivered_packet_has_the_number_of_its_session<
    S,
    E,
    F: Fn(&S) -> u32,
    G: FnOnce() -> Result<S, E>,
    H: FnOnce(&S) -> bool,
>(
    number: spec_fn(S) -> u32,
    packet: Seq<u8>,
    fec: bool,
    delivered: Seq<u8>,
    before: Map<u64, S>,
    peer: u64,
    conv: u32,
    sn: u32,
    conv_of: F,
    make: G,
    offer: H,
    looked_up: Map<u64, S>,
    created: bool,
    replaced: Option<S>,
    after: Map<u64, S>,
    admission: Admission<S>,
)
    requires
        has_size_field(packet, fec),
        routes(packet, fec, delivered, Route::Segment { conv, sn }),
        tells_numbers(number, conv_of, make, conv),
        looks_up(
            before,
            peer,
            conv,
            sn,
            conv_of,
            make,
            looked_up,
            Ok::<(bool, Option<S>), E>((created, replaced)),
        ),
        settles(looked_up, created, replaced, peer, conv, conv_of, offer, after, admission),
        admission is Deliver,
    ensures
        conv != 0,
        route_of(delivered, fec) == (Route::Segment { conv, sn }),
        after.contains_key(peer),
        number(after[peer]) == conv,
        delivered.len() == packet.len(),
        forall|i: int|
            0 <= i < packet.len() && !(conv_at(packet, fec) <= i < conv_at(packet, fec) + 4)
                ==> #[trigger] delivered[i] == packet[i],
        route_of(packet, fec)->conv != 0 ==> delivered == packet,
{
    let existing = choose|existing: Option<u32>|
        {
            &&& (existing is Some) == before.contains_key(peer)
            &&& existing is Some && sn == 0 ==> call_ensures(
                conv_of,
                (&before[peer],),
                existing->0,
            )
            &&& #[trigger] calls_for_new(existing, conv, sn) == created
        };
    assert(calls_for_new(existing, conv, sn) == created);
    if route_of(packet, fec)->conv == 0 {
        law_assigned_number_is_found_again(packet, fec, conv);
        let part = kcp_part(packet, fec);
        assert(le32_bytes(conv as int).len() == 4);
        assert forall|i: int| 4 <= i < part.len() implies #[trigger] with_conv(part, conv)[i]
            == part[i] by {}
    }
}

/// A datagram of another conversation than that of its peer's session, and not the first of
/// it, is dropped, and changes nothing.
pub proof fn law_foreign_packet_is_dropped<
    S,
    E,
    F: Fn(&S) -> u32,
    G: FnOnce() -> Result<S, E>,
    H: FnOnce(&S) -> bool,
>(
    number: spec_fn(S) -> u32,
    before: Map<u64, S>,
    peer: u64,
    conv: u32,
    sn: u32,
    conv_of: F,
    make: G,
    offer: H,
    looked_up: Map<u64, S>,
    created: bool,
    replaced: Option<S>,
    after: Map<u64, S>,
    admission: Admission<S>,
)
    requires
        tells_numbers(number, conv_of, make, conv),
        looks_up(
            before,
            peer,
            conv,
            sn,
            conv_of,
            make,
            looked_up,
            Ok::<(bool, Option<S>), E>((created, replaced)),
        ),
        settles(looked_up, created, replaced, peer, conv, conv_of, offer, after, admission),
        before.contains_key(peer),
        number(before[peer]) != conv,
        sn != 0,
    ensures
        admission is Foreign,
        after == before,
{
}

} // verus!
