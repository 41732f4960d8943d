//! What holds of a listener's operations.

use crate::listener::laws::admission::law_who_gets_a_packet;
use crate::listener::laws::law_assigned_number_is_found_again;
use crate::listener::laws::reading::{
    law_only_missing_numbers_are_filled_in, law_route_is_read_from_the_bytes, segments_at,
};
use crate::listener::laws::tells_numbers;
use crate::listener::{
    assign_conv, has_size_field, route, route_of, settle, settles, Admission, Route,
};
use crate::segment::with_conv;
use crate::session::laws::table::law_session_is_made_for_another_conversation;
use crate::session::manager::looks_up;
use crate::session::KcpSessionManager;
use crate::wire::{le32_at, le32_bytes};
use vstd::prelude::*;

verus! {

/// Routing tells parity packets and short ones apart from those that carry segments, which
/// go by the conversation number and the segment number in their bytes. A datagram without
/// a number gets one, in the four bytes of the number and nowhere else.
pub proof fn law_routing(packet: &mut [u8], fec: bool, found: Route)
    requires
        has_size_field(old(packet)@, fec),
        call_ensures(route, (packet, fec), found),
    ensures
        ({
            let before = old(packet)@;
            let after = final(packet)@;
            let at = segments_at(before, fec);
            let parity = fec && before.len() >= 6 && before[4] == 0xf2 && before[5] == 0;
            &&& found is Parity <==> parity
            &&& found is TooShort <==> !parity && before.len() < at + 24
            &&& !(found is Segment) ==> after == before
            &&& found matches Route::Segment { conv, sn } ==> {
                &&& conv != 0
                &&& sn == le32_at(before, at + 12)
                &&& le32_at(before, at) != 0 ==> conv == le32_at(before, at) && after == before
                &&& after.len() == before.len()
                &&& le32_at(after, at) == conv
                &&& forall|i: int|
                    0 <= i < before.len() && !(at <= i < at + 4) ==> #[trigger] after[i]
                        == before[i]
            }
        }),
{
    let before = old(packet)@;
    let after = final(packet)@;
    let at = segments_at(before, fec);
    law_route_is_read_from_the_bytes(before, fec);
    law_only_missing_numbers_are_filled_in(before, fec, after, found);
    if let Route::Segment { conv, sn } = found {
        if le32_at(before, at) == 0 {
            law_assigned_number_is_found_again(before, fec, conv);
            law_route_is_read_from_the_bytes(after, fec);
            let part = before.skip(at);
            assert(at == 0 ==> part =~= before);
            assert(le32_bytes(conv as int).len() == 4);
            assert(after =~= before.take(at) + with_conv(part, conv));
            assert forall|i: int| 0 <= i < before.len() && !(at <= i < at + 4) implies
                #[trigger] after[i] == before[i] by {
                if i >= at + 4 {
                    assert(with_conv(part, conv)[i - at] == part[i - at]);
                }
            }
            assert(segments_at(after, fec) == at);
        }
    }
}

/// Settling a packet: it goes to its peer's session if that has the packet's number, is
/// foreign if it has another and the packet's segment number is not 0, and else goes to a
/// new session that is offered once and taken back if it is not wanted; the session before
/// is handed out.
pub proof fn law_settling<
    S,
    E,
    F: Fn(&S) -> u32,
    G: FnOnce() -> Result<S, E>,
    H: FnOnce(&S) -> bool,
>(
    number: spec_fn(S) -> u32,
    sessions: &mut KcpSessionManager<S>,
    peer: u64,
    conv: u32,
    sn: u32,
    conv_of: &F,
    make: G,
    offer: H,
    res: Result<Admission<S>, E>,
)
    requires
        tells_numbers(number, *conv_of, make, conv),
        call_ensures(
            settle::<S, E, F, G, H>,
            (sessions, peer, conv, sn, conv_of, make, offer),
            res,
        ),
    ensures
        ({
            let before = old(sessions)@;
            let after = final(sessions)@;
            let replaces = before.contains_key(peer) && number(before[peer]) != conv && sn == 0;
            &&& before.contains_key(peer) && number(before[peer]) == conv ==> res is Ok
                && res->Ok_0 == Admission::<S>::Deliver(None) && after == before
            &&& before.contains_key(peer) && number(before[peer]) != conv && sn != 0 ==> res is Ok
                && res->Ok_0 is Foreign && after == before
            &&& replaces || !before.contains_key(peer) ==> match res {
                Ok(Admission::Deliver(old_one)) => {
                    &&& after.contains_key(peer) && number(after[peer]) == conv
                    &&& old_one is Some <==> replaces
                    &&& replaces ==> old_one == Some(before[peer])
                },
                Ok(Admission::Refused(new_one, old_one)) => {
                    &&& !after.contains_key(peer)
                    &&& new_one is Some && number(new_one->0) == conv
                    &&& old_one is Some <==> replaces
                    &&& replaces ==> old_one == Some(before[peer])
                },
                Ok(Admission::Foreign) => false,
                Err(err) => after == before && call_ensures(make, (), Err::<S, E>(err)),
            }
        }),
{
    let before = old(sessions)@;
    let after = final(sessions)@;
    let (looked_up, found) = choose|looked_up: Map<u64, S>, found: Result<(bool, Option<S>), E>|
     #[trigger]
        looks_up(before, peer, conv, sn, *conv_of, make, looked_up, found) && match found {
            Ok((created, replaced)) => res is Ok && looked_up.contains_key(peer) && settles(
                looked_up,
                created,
                replaced,
                peer,
                conv,
                *conv_of,
                offer,
                after,
                res->Ok_0,
            ),
            Err(err) => res == Err::<Admission<S>, E>(err) && after == looked_up,
        };
    law_session_is_made_for_another_conversation(
        number,
        before,
        peer,
        conv,
        sn,
        *conv_of,
        make,
        looked_up,
        found,
    );
    if let Ok((created, replaced)) = found {
        law_who_gets_a_packet(
            number,
            before,
            peer,
            conv,
            sn,
            *conv_of,
            make,
            offer,
            looked_up,
            created,
            replaced,
            after,
            res->Ok_0,
        );
    }
}

/// Giving a datagram a number changes the four bytes of the number, where it is read from
/// then, and nothing else.
pub proof fn law_assigning_a_number(packet: &mut [u8], fec: bool, conv: u32)
    requires
        has_size_field(old(packet)@, fec),
        route_of(old(packet)@, fec) is Segment,
        call_ensures(assign_conv, (packet, fec, conv), ()),
    ensures
        ({
            let before = old(packet)@;
            let after = final(packet)@;
            let at = segments_at(before, fec);
            &&& after.len() == before.len()
            &&& le32_at(after, at) == conv
            &&& forall|i: int|
                0 <= i < before.len() && !(at <= i < at + 4) ==> #[trigger] after[i] == before[i]
        }),
{
    let before = old(packet)@;
    let after = final(packet)@;
    let at = segments_at(before, fec);
    law_route_is_read_from_the_bytes(before, fec);
    law_assigned_number_is_found_again(before, fec, conv);
    law_route_is_read_from_the_bytes(after, fec);
    let part = before.skip(at);
    assert(at == 0 ==> part =~= before);
    assert(le32_bytes(conv as int).len() == 4);
    assert(after =~= before.take(at) + with_conv(part, conv));
    assert forall|i: int| 0 <= i < before.len() && !(at <= i < at + 4) implies #[trigger] after[i]
        == before[i] by {
        if i >= at + 4 {
            assert(with_conv(part, conv)[i - at] == part[i - at]);
        }
    }
    assert(segments_at(after, fec) == at);
}

} // verus!
