//! The table of sessions that a listener keeps.

use std::collections::HashMap;
use vstd::prelude::*;

verus! {

/// `rand::random`, asked for a number that is not zero: any other may come.
#[verifier::external_body]
fn random_nonzero() -> (number: u32)
    ensures
        number != 0,
{
    rand::random::<std::num::NonZeroU32>().get()
}

/// A conversation number by chance; never 0, which asks the other side to choose one.
pub fn fresh_conv() -> (conv: u32)
    ensures
        conv != 0,
{
    random_nonzero()
}

/// A peer's packet with segment number `sn` of conversation `conv` calls for a new
/// session: there is none, or the packet is the first of another conversation than that
/// of the session, whose number is `existing`.
pub open spec fn calls_for_new(existing: Option<u32>, conv: u32, sn: u32) -> bool {
    match existing {
        Some(existing) => sn == 0 && existing != conv,
        None => true,
    }
}

/// The sessions of a listener, at most one for each peer. A session is held by a handle of
/// type `S`, a peer is known by a number.
#[derive(Debug)]
pub struct KcpSessionManager<S> {
    sessions: HashMap<u64, S>,
}

impl<S> View for KcpSessionManager<S> {
    type V = Map<u64, S>;

    closed spec fn view(&self) -> Map<u64, S> {
        self.sessions@
    }
}

/// `conv_of` can be asked for every session's conversation number.
pub open spec fn can_ask<S, F: Fn(&S) -> u32>(conv_of: F) -> bool {
    forall|session: &S| #[trigger] call_requires(conv_of, (session,))
}

/// What becomes of the table `before` when the session of `peer` is looked up for a
/// packet: `after`, whether a session was made, and the session that it took the place
/// of.
pub open spec fn looks_up<S, E, F: Fn(&S) -> u32, G: FnOnce() -> Result<S, E>>(
    before: Map<u64, S>,
    peer: u64,
    conv: u32,
    sn: u32,
    conv_of: F,
    make: G,
    after: Map<u64, S>,
    res: Result<(bool, Option<S>), E>,
) -> bool {
    exists|existing: Option<u32>|
        {
            &&& (existing is Some) == before.contains_key(peer)
            &&& existing is Some && sn == 0 ==> call_ensures(
                conv_of,
                (&before[peer],),
                existing->0,
            )
            &&& if #[trigger] calls_for_new(existing, conv, sn) {
                match res {
                    Ok((created, replaced)) => {
                        &&& created
                        &&& after.contains_key(peer)
                        &&& call_ensures(make, (), Ok::<S, E>(after[peer]))
                        &&& after == before.insert(peer, after[peer])
                        &&& replaced == before.get(peer)
                    },
                    Err(err) => after == before && call_ensures(make, (), Err::<S, E>(err)),
                }
            } else {
                after == before && res == Ok::<(bool, Option<S>), E>((false, None))
            }
        }
}

impl<S> KcpSessionManager<S> {
    /// An empty table.
    pub fn new() -> (manager: KcpSessionManager<S>)
        ensures
            manager@ == Map::<u64, S>::empty(),
    {
        KcpSessionManager { sessions: HashMap::new() }
    }

    /// A conversation number for a client that asks for one.
    pub fn alloc_conv(&mut self) -> (conv: u32)
        ensures
            conv != 0,
            final(self)@ == old(self)@,
    {
        fresh_conv()
    }

    /// Removes the session of `peer` from the table and returns it.
    pub fn close_peer(&mut self, peer: u64) -> (session: Option<S>)
        ensures
            final(self)@ == old(self)@.remove(peer),
            session == old(self)@.get(peer),
    {
        broadcast use vstd::std_specs::hash::group_hash_axioms;

        self.sessions.remove(&peer)
    }

    /// The session of `peer`.
    pub fn get(&self, peer: u64) -> (session: Option<&S>)
        ensures
            match session {
                Some(session) => self@.contains_key(peer) && *session == self@[peer],
                None => !self@.contains_key(peer),
            },
    {
        broadcast use vstd::std_specs::hash::group_hash_axioms;

        self.sessions.get(&peer)
    }

    /// Sees to it that `peer` has a session for a packet with segment number `sn` of
    /// conversation `conv`, and makes one with `make` if that is called for. Returns
    /// whether it was, and the session that the new one took the place of.
    pub fn get_or_create<E, F: Fn(&S) -> u32, G: FnOnce() -> Result<S, E>>(
        &mut self,
        peer: u64,
        conv: u32,
        sn: u32,
        conv_of: &F,
        make: G,
    ) -> (res: Result<(bool, Option<S>), E>)
        requires
            can_ask(*conv_of),
            call_requires(make, ()),
        ensures
            looks_up(old(self)@, peer, conv, sn, *conv_of, make, final(self)@, res),
            res is Ok ==> final(self)@.contains_key(peer),
    {
        broadcast use vstd::std_specs::hash::group_hash_axioms;

        let ghost mut existing: Option<u32> = None;
        if let Some(session) = self.sessions.get(&peer) {
            if sn != 0 {
                proof {
                    existing = Some(0);
                }
                assert(!calls_for_new(existing, conv, sn));
                return Ok((false, None));
            }
            let found: u32 = conv_of(session);
            proof {
                existing = Some(found);
            }
            if found == conv {
                assert(!calls_for_new(existing, conv, sn));
                return Ok((false, None));
            }
        }
        assert(calls_for_new(existing, conv, sn));
        match make() {
            Ok(session) => {
                let replaced = self.sessions.insert(peer, session);
                Ok((true, replaced))
            },
            Err(err) => Err(err),
        }
    }
}

} // verus!
