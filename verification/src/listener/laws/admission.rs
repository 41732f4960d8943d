//! Who gets a packet.

use crate::listener::laws::tells_numbers;
use crate::listener::{settles, Admission};
use crate::session::laws::table::law_session_is_made_for_another_conversation;
use crate::session::manager::looks_up;
use vstd::prelude::*;

verus! {

/// A packet goes to its peer's session if that has the packet's number; it is foreign if it
/// has another and the packet's segment number is not 0; and else it goes to a new session,
/// which is offered once and taken back if it is not wanted. The session before is handed
/// out either way.
pub proof fn law_who_gets_a_packet<
    S,
    E,
    F: Fn(&S) -> u32,
    G: FnOnce() -> Result<S, E>,
    H: FnOnce(&S) -> bool,
>(
    number: spec_fn(S) -> u32,
    before: Map<u64, S>,
    peer: u64,
    conv: u32,
    sn: u32,
    conv_of: F,
    make: G,
    offer: H,
    looked_up: Map<u64, S>,
    created: bool,
    replaced: Option<S>,
    after: Map<u64, S>,
    admission: Admission<S>,
)
    requires
        tells_numbers(number, conv_of, make, conv),
        looks_up(
            before,
            peer,
            conv,
            sn,
            conv_of,
            make,
            looked_up,
            Ok::<(bool, Option<S>), E>((created, replaced)),
        ),
        settles(looked_up, created, replaced, peer, conv, conv_of, offer, after, admission),
    ensures
        before.contains_key(peer) && number(before[peer]) == conv ==> admission == Admission::<
            S,
        >::Deliver(None) && after == before,
        before.contains_key(peer) && number(before[peer]) != conv && sn != 0 ==> admission
            == Admission::<S>::Foreign && after == before,
        !before.contains_key(peer) || number(before[peer]) != conv && sn == 0 ==> {
            let old_one = if before.contains_key(peer) {
                Some(before[peer])
            } else {
                None
            };
            match admission {
                Admission::Deliver(handed_out) => {
                    &&& handed_out == old_one
                    &&& after.contains_key(peer)
                    &&& number(after[peer]) == conv
                    &&& call_ensures(make, (), Ok::<S, E>(after[peer]))
                    &&& call_ensures(offer, (&after[peer],), true)
                },
                Admission::Refused(taken_back, handed_out) => {
                    &&& handed_out == old_one
                    &&& !after.contains_key(peer)
                    &&& taken_back is Some
                    &&& number(taken_back->0) == conv
                    &&& call_ensures(make, (), Ok::<S, E>(taken_back->0))
                    &&& call_ensures(offer, (&taken_back->0,), false)
                },
                Admission::Foreign => false,
            }
        },
{
    law_session_is_made_for_another_conversation(
        number,
        before,
        peer,
        conv,
        sn,
        conv_of,
        make,
        looked_up,
        Ok::<(bool, Option<S>), E>((created, replaced)),
    );
}

} // verus!
