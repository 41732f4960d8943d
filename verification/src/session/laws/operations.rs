//! What holds of a session's and a session table's operations.

use crate::codec::present_count;
use crate::error::{ErrorKind, KcpError};
use crate::fec::laws::window::{belongs, is_free};
use crate::listener::laws::tells_numbers;
use crate::session::laws::client::{
    is_parity, law_client_collects_packets, law_client_hands_plain_datagrams_on,
    law_client_makes_losses_good, law_client_wakes_who_can_go_on,
    law_only_short_datagrams_are_dropped, machine_for, segments_at,
};
use crate::session::laws::lifetime::{
    all_is_sent, idle_for_more_than, law_ages_of_a_session, law_next_turn_is_as_asked,
    law_next_update, law_when_a_session_ends, law_when_a_session_is_closed,
};
use crate::session::laws::table::law_session_is_made_for_another_conversation;
use crate::session::laws::law_ended_session_wakes_everyone;
use crate::session::{
    deadline, drives, inspect, lifetime, Inbound, KcpSession, KcpSessionManager, Lifetime,
};
use crate::skcp::laws::losses::{
    carried, completes, handed_over, is_marked, lost_payloads_of,
};
use crate::skcp::laws::waking::{
    handed, has_message, has_room, somebody_was_woken, taken_or_left, waiting_ends_with_a_wake,
};
use crate::skcp::{takes_in, updates, KcpSocket, Wakes};
use crate::utils::duration_nanos;
use crate::wire::le32_at;
use std::time::Duration;
use vstd::prelude::*;

verus! {

/// A client drops a datagram exactly if it is no parity packet and too short for a segment,
/// and then nothing changes. Without forward error correction, or without a mark, KCP is
/// handed any other as it is.
pub proof fn law_client_input_hands_datagrams_on(
    session: &mut KcpSession,
    packet: &[u8],
    now_ms: u64,
    res: Option<Result<bool, KcpError>>,
)
    requires
        call_ensures(KcpSession::client_input, (session, packet, now_ms), res),
    ensures
        ({
            let before = old(session).connection();
            let after = final(session).connection();
            &&& res is None <==> !is_parity(packet@) && packet@.len() < segments_at(packet@) + 24
            &&& res is None ==> after == before
            &&& res is Some && (before@.fec is None || !is_marked(packet@)) ==> handed_over(
                machine_for(before, packet@),
                seq![packet@],
                before@.flush_ack_input,
                after,
                res->0,
            )
            &&& final(session)@.closed == old(session)@.closed
            &&& final(session)@.expire_ms == old(session)@.expire_ms
        }),
{
    let before = old(session).connection();
    let after = final(session).connection();
    law_only_short_datagrams_are_dropped(before, packet@, now_ms, after, res);
    if res is Some && (before@.fec is None || !is_marked(packet@)) {
        law_client_hands_plain_datagrams_on(before, packet@, now_ms, after, res);
    }
}

/// A client makes losses good: with the datagram that completes a block, parity or data, KCP
/// is handed what the datagram carries, and then the payloads of all data packets of the
/// block that did not come in, in order.
pub proof fn law_client_input_makes_losses_good(
    session: &mut KcpSession,
    packet: &[u8],
    now_ms: u64,
    res: Option<Result<bool, KcpError>>,
    id: u32,
    i: int,
    payloads: Seq<Seq<u8>>,
)
    requires
        call_ensures(KcpSession::client_input, (session, packet, now_ms), res),
        is_parity(packet@) || packet@.len() >= segments_at(packet@) + 24,
        completes(old(session).connection(), packet@, id, i, payloads),
    ensures
        ({
            let before = old(session).connection();
            let after = final(session).connection();
            &&& res is Some
            &&& handed_over(
                machine_for(before, packet@),
                carried(packet@) + lost_payloads_of(before, packet@, id, i, payloads),
                before@.flush_ack_input,
                after,
                res->0,
            )
            &&& res->0 is Ok ==> after@.fec is Some && !after@.fec->0.sets.contains_key(id)
        }),
{
    law_client_makes_losses_good(
        old(session).connection(),
        packet@,
        now_ms,
        final(session).connection(),
        res,
        id,
        i,
        payloads,
    );
}

/// A client collects packets: a parity or data packet that falls into a free place is in
/// the decoder afterwards while its block has too few packets, and its block is closed once
/// it has enough.
pub proof fn law_client_input_collects_packets(
    session: &mut KcpSession,
    packet: &[u8],
    now_ms: u64,
    res: Option<Result<bool, KcpError>>,
    id: u32,
    i: int,
)
    requires
        call_ensures(KcpSession::client_input, (session, packet, now_ms), res),
        is_parity(packet@) || packet@.len() >= segments_at(packet@) + 24,
        ({
            let before = old(session).connection()@;
            &&& before.fec is Some
            &&& before.fec->0.wf()
            &&& is_marked(packet@)
            &&& belongs(packet@, before.fec->0.shard_size(), id, i)
            &&& is_free(before.fec->0, id, i)
            &&& -0x8000_0000 < id - before.fec->0.newest < 0x8000_0000
            &&& before.fec->0.newest - id <= 3 * before.fec->0.shard_size()
        }),
    ensures
        ({
            let decoder = old(session).connection()@.fec->0;
            let after = final(session).connection()@;
            let had: nat = if decoder.sets.contains_key(id) {
                present_count(decoder.sets[id])
            } else {
                0
            };
            &&& res is Some
            &&& res->0 is Ok && had + 1 < decoder.data_shards ==> {
                &&& after.fec is Some
                &&& after.fec->0.sets.contains_key(id)
                &&& after.fec->0.sets[id][i] == Some(packet@.skip(6))
                &&& present_count(after.fec->0.sets[id]) == had + 1
            }
            &&& res->0 is Ok && had + 1 >= decoder.data_shards ==> after.fec is Some
                && !after.fec->0.sets.contains_key(id)
        }),
{
    law_client_collects_packets(
        old(session).connection(),
        packet@,
        now_ms,
        final(session).connection(),
        res,
        id,
        i,
    );
}

/// A client's readers and writers who can go on because of a datagram are woken, and nobody
/// else.
pub proof fn law_client_input_wakes_who_can_go_on(
    session: &mut KcpSession,
    packet: &[u8],
    now_ms: u64,
    res: Option<Result<bool, KcpError>>,
)
    requires
        call_ensures(KcpSession::client_input, (session, packet, now_ms), res),
        res is Some,
    ensures
        ({
            let before = old(session).connection();
            let after = final(session).connection()@;
            &&& waiting_ends_with_a_wake(before@, after)
            &&& res->0 is Ok ==> res->0->Ok_0 == somebody_was_woken(before@, after)
            &&& res->0 is Ok && taken_or_left(
                machine_for(before, packet@),
                handed(before, packet@),
                before@.flush_ack_input,
            ) ==> {
                &&& before@.pending_receiver && !has_message(before@) && has_message(after)
                    ==> after.wakes.receiver && !after.pending_receiver
                &&& before@.pending_sender && !has_room(before@) && has_room(after)
                    ==> after.wakes.sender && !after.pending_sender
            }
        }),
{
    law_client_wakes_who_can_go_on(
        old(session).connection(),
        packet@,
        now_ms,
        final(session).connection(),
        res,
    );
}

/// A session that a listener passes a datagram to does with it what its connection does.
pub proof fn law_session_input_is_its_connections(
    session: &mut KcpSession,
    packet: &[u8],
    now_ms: u64,
    res: Result<bool, KcpError>,
)
    requires
        call_ensures(KcpSession::input, (session, packet, now_ms), res),
    ensures
        takes_in(
            old(session).connection(),
            packet@,
            now_ms,
            final(session).connection(),
            res,
        ),
        final(session)@.closed == old(session)@.closed,
        final(session)@.expire_ms == old(session)@.expire_ms,
{
}

/// A turn of a session: it ends if it is closed and has sent everything, or has been idle
/// for more than twice its limit; it is closed if it has been idle for more than its limit;
/// and it is driven again as many whole milliseconds later as its update asks for.
pub proof fn law_turn_of_a_session(session: &mut KcpSession, now_ms: u64, next: Option<u64>)
    requires
        call_ensures(KcpSession::drive_update, (session, now_ms), next),
    ensures
        ({
            let before = *old(session);
            let after = *final(session);
            &&& before@.closed && all_is_sent(before) || idle_for_more_than(before, now_ms, 2)
                ==> next is None && after == before
            &&& next is Some ==> after@.closed == (before@.closed || idle_for_more_than(
                before,
                now_ms,
                1,
            ))
            &&& next matches Some(time) ==> exists|delay: Duration| #[trigger]
                updates(before.connection(), now_ms, after.connection(), Ok(delay)) && (time
                    == now_ms + duration_nanos(delay) / 1_000_000 || time == u64::MAX)
        }),
{
    law_when_a_session_ends(*old(session), now_ms, *final(session), next);
    law_when_a_session_is_closed(*old(session), now_ms, *final(session), next);
    if let Some(time) = next {
        law_next_turn_is_as_asked(*old(session), now_ms, *final(session), time);
    }
}

/// A session whose turn was its last is shut down: it is closed, and everyone who waited is
/// woken. One that goes on is left as its turn left it.
pub proof fn law_last_turn_shuts_down(session: &mut KcpSession, now_ms: u64, next: Option<u64>)
    requires
        call_ensures(KcpSession::poll_scheduler_tick, (session, now_ms), next),
    ensures
        ({
            let before = *old(session);
            let after = *final(session);
            &&& before@.closed && all_is_sent(before) || idle_for_more_than(before, now_ms, 2)
                ==> next is None
            &&& next is None ==> {
                &&& after@.closed && after@.socket.closed
                &&& !after@.socket.pending_sender && !after@.socket.pending_receiver
                &&& before@.socket.pending_sender ==> after@.socket.wakes.sender
                &&& before@.socket.pending_receiver ==> after@.socket.wakes.receiver
            }
            &&& next is Some ==> after@.closed == (before@.closed || idle_for_more_than(
                before,
                now_ms,
                1,
            )) && after@.socket.closed == before@.socket.closed
        }),
{
    let driven = choose|driven: KcpSession| #[trigger]
        drives(*old(session), now_ms, driven, next) && match next {
            Some(_) => *final(session) == driven,
            None => final(session)@ == driven@.finalized(),
        };
    old(session).lemma_connection();
    driven.lemma_connection();
    law_when_a_session_ends(*old(session), now_ms, driven, next);
    law_when_a_session_is_closed(*old(session), now_ms, driven, next);
    if next is None {
        law_ended_session_wakes_everyone(*old(session), now_ms, driven);
    }
}

/// A new session is open and can expire only if it reports its end: then after as many
/// whole milliseconds as it was given, if 64 bits hold them.
pub proof fn law_new_session(
    socket: KcpSocket,
    expire: Option<Duration>,
    reports_end: bool,
    session: KcpSession,
)
    requires
        call_ensures(KcpSession::new, (socket, expire, reports_end), session),
    ensures
        session.connection() == socket,
        !session@.closed,
        expire is None || !reports_end ==> session@.expire_ms == 0,
        expire is Some && reports_end && duration_nanos(expire->0) / 1_000_000 <= u64::MAX
            ==> session@.expire_ms == duration_nanos(expire->0) / 1_000_000,
{
}

/// Closing a session marks it and nothing else.
pub proof fn law_closing_a_session(session: &mut KcpSession)
    requires
        call_ensures(KcpSession::close, (session,), ()),
    ensures
        final(session)@.closed,
        final(session).connection() == old(session).connection(),
        final(session)@.expire_ms == old(session)@.expire_ms,
{
}

/// Looking up the session of a peer makes one exactly if the peer has none, or if the packet
/// has segment number 0 and another number than the peer's session, larger or smaller. The
/// new one is the peer's session then, and the one before is handed out.
pub proof fn law_looking_up_a_session<S, E, F: Fn(&S) -> u32, G: FnOnce() -> Result<S, E>>(
    number: spec_fn(S) -> u32,
    manager: &mut KcpSessionManager<S>,
    peer: u64,
    conv: u32,
    sn: u32,
    conv_of: &F,
    make: G,
    res: Result<(bool, Option<S>), E>,
)
    requires
        tells_numbers(number, *conv_of, make, conv),
        call_ensures(
            KcpSessionManager::<S>::get_or_create::<E, F, G>,
            (manager, peer, conv, sn, conv_of, make),
            res,
        ),
    ensures
        ({
            let before = old(manager)@;
            let after = final(manager)@;
            match res {
                Ok((created, replaced)) => {
                    &&& before.contains_key(peer) ==> (created <==> number(before[peer]) != conv
                        && sn == 0)
                    &&& !before.contains_key(peer) ==> created
                    &&& created ==> after.contains_key(peer) && number(after[peer]) == conv
                    &&& created && before.contains_key(peer) ==> replaced == Some(before[peer])
                    &&& created && !before.contains_key(peer) ==> replaced is None
                    &&& !created ==> after == before && replaced is None
                },
                Err(_) => after == before && (before.contains_key(peer) ==> number(before[peer])
                    != conv && sn == 0),
            }
        }),
{
    law_session_is_made_for_another_conversation(
        number,
        old(manager)@,
        peer,
        conv,
        sn,
        *conv_of,
        make,
        final(manager)@,
        res,
    );
}

/// The session of a peer is found until it is closed, and handed out then; other peers'
/// sessions stay.
pub proof fn law_closing_a_peer<S>(
    manager: &mut KcpSessionManager<S>,
    peer: u64,
    session: Option<S>,
    closed: &KcpSessionManager<S>,
    found: Option<&S>,
    other: u64,
    other_found: Option<&S>,
)
    requires
        call_ensures(KcpSessionManager::<S>::close_peer, (manager, peer), session),
        *closed == *final(manager),
        call_ensures(KcpSessionManager::<S>::get, (closed, peer), found),
        call_ensures(KcpSessionManager::<S>::get, (closed, other), other_found),
        other != peer,
    ensures
        session is Some <==> old(manager)@.contains_key(peer),
        session is Some ==> session->0 == old(manager)@[peer],
        found is None,
        other_found is Some <==> old(manager)@.contains_key(other),
        other_found is Some ==> *other_found->0 == old(manager)@[other],
{
}

/// Shutting a session down closes it and wakes exactly those who wait; whoever was woken is
/// then reported once.
pub proof fn law_shutting_down(
    session: &mut KcpSession,
    over: &mut KcpSession,
    wakes: Wakes,
)
    requires
        call_ensures(KcpSession::finalize, (session,), ()),
        *old(over) == *final(session),
        call_ensures(KcpSession::take_wakes, (over,), wakes),
    ensures
        final(session)@.closed && final(session)@.socket.closed,
        !final(session)@.socket.pending_sender && !final(session)@.socket.pending_receiver,
        final(session)@.socket.link == old(session)@.socket.link,
        wakes.sender == (old(session)@.socket.wakes.sender || old(
            session,
        )@.socket.pending_sender),
        wakes.receiver == (old(session)@.socket.wakes.receiver || old(
            session,
        )@.socket.pending_receiver),
        !final(over)@.socket.wakes.sender && !final(over)@.socket.wakes.receiver,
        final(over)@.closed,
{
}

/// What a datagram is to a client, by its bytes: a parity packet carries no segment; any
/// other carries one if it has 24 bytes for its header, behind the eight bytes in front of
/// the payload of a data packet, and the first four of them are the conversation number.
pub proof fn law_what_a_datagram_is(packet: &[u8], kind: Inbound)
    requires
        call_ensures(inspect, (packet,), kind),
    ensures
        ({
            let at = segments_at(packet@);
            &&& kind is Parity <==> is_parity(packet@)
            &&& kind is TooShort <==> !is_parity(packet@) && packet@.len() < at + 24
            &&& kind matches Inbound::Segment(conv) ==> conv == packet@[at] + 256 * packet@[at + 1]
                + 65536 * packet@[at + 2] + 16777216 * packet@[at + 3]
        }),
{
    let at = segments_at(packet@);
    if packet@.len() >= at + 24 {
        assert(at == 8 ==> le32_at(packet@.skip(8), 0) == le32_at(packet@, 8));
    }
}

/// How long a session lives and when it is driven next are as its ages and its updates say.
pub proof fn law_decisions_on_a_session(
    expire_ms: u64,
    now_ms: u64,
    last_update_ms: u64,
    life: Lifetime,
    updated: Result<Duration, KcpError>,
    next: Option<u64>,
)
    requires
        call_ensures(lifetime, (expire_ms, now_ms, last_update_ms), life),
        call_ensures(deadline, (now_ms, updated), next),
    ensures
        ({
            let idle = now_ms - last_update_ms;
            &&& life == Lifetime::Alive <==> expire_ms == 0 || idle <= expire_ms
            &&& life == Lifetime::Over <==> expire_ms > 0 && idle > 2 * expire_ms
            &&& next is None <==> updated is Err && updated->Err_0 is IoError
                && updated->Err_0.spec_kind() == ErrorKind::BrokenPipe
            &&& updated is Ok && now_ms + duration_nanos(updated->Ok_0) / 1_000_000 <= u64::MAX
                ==> next == Some(
                (now_ms + duration_nanos(updated->Ok_0) / 1_000_000) as u64,
            )
            &&& updated is Err && next is Some && now_ms + 10 <= u64::MAX ==> next == Some(
                (now_ms + 10) as u64,
            )
        }),
{
    law_ages_of_a_session(expire_ms, now_ms, last_update_ms);
    law_next_update(now_ms, updated);
}

} // verus!
