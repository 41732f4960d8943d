//! When a listener makes a session.

use crate::listener::laws::tells_numbers;
use crate::session::manager::{calls_for_new, looks_up};
use vstd::prelude::*;

verus! {

/// A session is made for a peer exactly if it has none, or if the packet has segment number
/// 0 and another conversation number than the peer's session, larger or smaller. It is the
/// peer's session afterwards, with the packet's number, and the one before is handed out.
/// Where none is made, or making one fails, the table stays as it is.
pub proof fn law_session_is_made_for_another_conversation<
    S,
    E,
    F: Fn(&S) -> u32,
    G: FnOnce() -> Result<S, E>,
>(
    number: spec_fn(S) -> u32,
    before: Map<u64, S>,
    peer: u64,
    conv: u32,
    sn: u32,
    conv_of: F,
    make: G,
    after: Map<u64, S>,
    res: Result<(bool, Option<S>), E>,
)
    requires
        tells_numbers(number, conv_of, make, conv),
        looks_up(before, peer, conv, sn, conv_of, make, after, res),
    ensures
        match res {
            Ok((created, replaced)) => {
                &&& before.contains_key(peer) ==> (created <==> number(before[peer]) != conv && sn
                    == 0)
                &&& !before.contains_key(peer) ==> created
                &&& created ==> {
                    &&& after.contains_key(peer)
                    &&& number(after[peer]) == conv
                    &&& call_ensures(make, (), Ok::<S, E>(after[peer]))
                    &&& before.contains_key(peer) ==> replaced == Some(before[peer])
                    &&& !before.contains_key(peer) ==> replaced is None
                }
                &&& !created ==> after == before && replaced is None
            },
            Err(err) => {
                &&& after == before
                &&& call_ensures(make, (), Err::<S, E>(err))
                &&& before.contains_key(peer) ==> number(before[peer]) != conv && sn == 0
            },
        },
        forall|other: u64|
            other != peer ==> #[trigger] after.contains_key(other) == before.contains_key(other),
        forall|other: u64|
            other != peer && #[trigger] before.contains_key(other) ==> after[other]
                == before[other],
{
    let existing = choose|existing: Option<u32>|
        {
            &&& (existing is Some) == before.contains_key(peer)
            &&& existing is Some && sn == 0 ==> call_ensures(
                conv_of,
                (&before[peer],),
                existing->0,
            )
            &&& if #[trigger] calls_for_new(existing, conv, sn) {
                match res {
                    Ok((created, replaced)) => {
                        &&& created
                        &&& after.contains_key(peer)
                        &&& call_ensures(make, (), Ok::<S, E>(after[peer]))
                        &&& after == before.insert(peer, after[peer])
                        &&& replaced == before.get(peer)
                    },
                    Err(err) => after == before && call_ensures(make, (), Err::<S, E>(err)),
                }
            } else {
                after == before && res == Ok::<(bool, Option<S>), E>((false, None))
            }
        };
    assert(existing is Some && sn == 0 ==> existing->0 == number(before[peer]));
}

/// A peer that starts anew gets a new session each time: after a packet with segment number
/// 0 of one conversation, another one of a different conversation makes a session again,
/// and hands out the first one's; one of the same conversation makes none.
pub proof fn law_each_new_conversation_makes_a_session<
    S,
    E,
    F: Fn(&S) -> u32,
    G: FnOnce() -> Result<S, E>,
    H: FnOnce() -> Result<S, E>,
>(
    number: spec_fn(S) -> u32,
    before: Map<u64, S>,
    peer: u64,
    conv: u32,
    next_conv: u32,
    conv_of: F,
    make: G,
    next_make: H,
    between: Map<u64, S>,
    first: (bool, Option<S>),
    after: Map<u64, S>,
    second: (bool, Option<S>),
)
    requires
        tells_numbers(number, conv_of, make, conv),
        tells_numbers(number, conv_of, next_make, next_conv),
        looks_up(
            before,
            peer,
            conv,
            0,
            conv_of,
            make,
            between,
            Ok::<(bool, Option<S>), E>(first),
        ),
        looks_up(
            between,
            peer,
            next_conv,
            0,
            conv_of,
            next_make,
            after,
            Ok::<(bool, Option<S>), E>(second),
        ),
    ensures
        second.0 <==> next_conv != conv,
        second.0 ==> second.1 == Some(between[peer]) && number(after[peer]) == next_conv,
        !second.0 ==> after == between,
{
    law_session_is_made_for_another_conversation(
        number,
        before,
        peer,
        conv,
        0,
        conv_of,
        make,
        between,
        Ok::<(bool, Option<S>), E>(first),
    );
    law_session_is_made_for_another_conversation(
        number,
        between,
        peer,
        next_conv,
        0,
        conv_of,
        next_make,
        after,
        Ok::<(bool, Option<S>), E>(second),
    );
}

} // verus!
