//! What holds of streams.

use crate::error::{ErrorKind, KcpError};
use crate::link::{head_count, head_message, joined, LinkState};
use crate::skcp::laws::waking::{has_message, has_room};
use crate::skcp::laws::{law_reported_bytes_are_sent, lemma_sending_keeps_wf};
use crate::skcp::{transmits, KcpSocket, Poll, SocketState};
use crate::stream::{delivers, reads, send_chain, sends_all};
use vstd::prelude::*;

pub mod operations;

verus! {

/// Reading loses no byte: what is delivered and what is kept make up what was kept before
/// or, if that was nothing, the next message.
pub proof fn law_reading_loses_no_byte(
    kept: Seq<u8>,
    before: SocketState,
    buf: Seq<u8>,
    now_ms: u64,
    still_kept: Seq<u8>,
    after: SocketState,
    filled: Seq<u8>,
    n: usize,
)
    requires
        reads(kept, before, buf, now_ms, still_kept, after, filled, Poll::Ready(Ok(n))),
        kept.len() > 0 || !before.closed,
    ensures
        n <= buf.len(),
        filled.take(n as int) + still_kept == if kept.len() > 0 {
            kept
        } else {
            head_message(before.link.received)
        },
        filled.skip(n as int) == buf.skip(n as int),
        still_kept.len() > 0 ==> n == buf.len(),
{
    let bytes = if kept.len() > 0 {
        kept
    } else {
        head_message(before.link.received)
    };
    assert(filled.take(n as int) =~= bytes.take(n as int));
    assert(bytes.take(n as int) + bytes.skip(n as int) =~= bytes);
    assert(filled.skip(n as int) =~= buf.skip(n as int));
}

/// `piece` is delivered of the kept bytes `kept`, and `still_kept` remains.
pub open spec fn piece_of(kept: Seq<u8>, piece: Seq<u8>, still_kept: Seq<u8>) -> bool {
    exists|buf: Seq<u8>, filled: Seq<u8>, n: usize| #[trigger]
        delivers(kept, buf, still_kept, filled, Poll::Ready(Ok(n))) && piece == filled.take(
            n as int,
        )
}

/// `pieces` are delivered one after the other; `kepts[i]` is kept before piece `i`.
pub open spec fn read_chain(kepts: Seq<Seq<u8>>, pieces: Seq<Seq<u8>>) -> bool {
    &&& kepts.len() == pieces.len() + 1
    &&& forall|i: int|
        #![trigger pieces[i]]
        0 <= i < pieces.len() ==> piece_of(kepts[i], pieces[i], kepts[i + 1])
}

/// A message that is read piece by piece comes out whole and in order: the pieces, and
/// what is still kept behind them, make up the message.
pub proof fn law_pieces_make_up_the_message(kepts: Seq<Seq<u8>>, pieces: Seq<Seq<u8>>)
    requires
        read_chain(kepts, pieces),
    ensures
        pieces.flatten() + kepts.last() == kepts.first(),
    decreases pieces.len(),
{
    if pieces.len() == 0 {
        assert(pieces.flatten() + kepts.last() =~= kepts.first());
    } else {
        let rest = kepts.drop_first();
        let behind = pieces.drop_first();
        assert forall|i: int| 0 <= i < behind.len() implies piece_of(
            rest[i],
            #[trigger] behind[i],
            rest[i + 1],
        ) by {
            assert(behind[i] == pieces[i + 1]);
        }
        law_pieces_make_up_the_message(rest, behind);
        assert(piece_of(kepts[0], pieces[0], kepts[1]));
        let (buf, filled, n) = choose|buf: Seq<u8>, filled: Seq<u8>, n: usize| #[trigger]
            delivers(kepts[0], buf, kepts[1], filled, Poll::Ready(Ok(n))) && pieces[0]
                == filled.take(n as int);
        assert(pieces[0] =~= kepts[0].take(n as int));
        assert(pieces[0] + (behind.flatten() + rest.last()) =~= kepts.first());
        assert(pieces.flatten() + kepts.last() =~= pieces[0] + (behind.flatten() + rest.last()));
    }
}

/// What is sent piece by piece is queued whole and in order: each step queues the bytes
/// between its marks behind what was waiting.
pub proof fn law_sending_loses_no_byte(
    states: Seq<KcpSocket>,
    marks: Seq<int>,
    buf: Seq<u8>,
    now_ms: u64,
    i: int,
)
    requires
        send_chain(states, marks, buf, now_ms),
        states.first()@.wf(),
        buf.len() <= usize::MAX,
        0 < i < states.len(),
    ensures
        states[i - 1]@.wf(),
        exists|queued: LinkState|
            #![trigger states[i]@.link.sent_from(queued)]
            states[i]@.link.sent_from(queued) && joined(queued.queue) == joined(
                states[i - 1]@.link.queue,
            ) + buf.subrange(marks[i - 1], marks[i]),
    decreases i,
{
    if i > 1 {
        law_sending_loses_no_byte(states, marks, buf, now_ms, i - 1);
        assert(marks[i - 2] < marks[i - 1]);
        lemma_sending_keeps_wf(
            states[i - 2]@,
            buf.skip(marks[i - 2]),
            now_ms,
            states[i - 1]@,
            Poll::Ready(Ok((marks[i - 1] - marks[i - 2]) as usize)),
        );
    }
    assert(marks[i - 1] < marks[i]);
    let n = (marks[i] - marks[i - 1]) as usize;
    let piece = buf.skip(marks[i - 1]);
    law_reported_bytes_are_sent(states[i - 1]@, piece, now_ms, states[i]@, n);
    assert(piece.take(n as int) =~= buf.subrange(marks[i - 1], marks[i]));
}

/// A writer that is told that all is sent has sent all of it, and one that waits has not.
pub proof fn law_all_or_waiting(
    before: KcpSocket,
    buf: Seq<u8>,
    from: int,
    now_ms: u64,
    after: KcpSocket,
    upto: int,
    res: Poll<Result<usize, KcpError>>,
)
    requires
        sends_all(before, buf, from, now_ms, after, upto, res),
        buf.len() > 0,
    ensures
        from <= upto <= buf.len(),
        res is Pending ==> upto < buf.len(),
        res matches Poll::Ready(Ok(n)) ==> n == buf.len() && upto == buf.len(),
{
    let (states, marks) = choose|states: Seq<KcpSocket>, marks: Seq<int>|
        {
            &&& #[trigger] send_chain(states, marks, buf, now_ms)
            &&& states.first() == before
            &&& marks.first() == from
            &&& marks.last() == upto
        };
    lemma_marks_grow(states, marks, buf, now_ms, marks.len() - 1);
}

proof fn lemma_marks_grow(
    states: Seq<KcpSocket>,
    marks: Seq<int>,
    buf: Seq<u8>,
    now_ms: u64,
    i: int,
)
    requires
        send_chain(states, marks, buf, now_ms),
        0 <= i < marks.len(),
    ensures
        marks[0] <= marks[i],
    decreases i,
{
    if i > 0 {
        lemma_marks_grow(states, marks, buf, now_ms, i - 1);
        assert(marks[i - 1] < marks[i]);
    }
}

/// A reader that has bytes kept, or finds a message to be delivered, is given as many bytes
/// as its buffer holds, and at once; what does not fit is kept. A reader of a closed
/// connection without bytes kept is at the end. Any other reader waits, and is noted.
pub proof fn law_reader_gets_as_much_as_fits(
    kept: Seq<u8>,
    before: SocketState,
    buf: Seq<u8>,
    now_ms: u64,
    still_kept: Seq<u8>,
    after: SocketState,
    filled: Seq<u8>,
    res: Poll<Result<usize, KcpError>>,
)
    requires
        reads(kept, before, buf, now_ms, still_kept, after, filled, res),
    ensures
        ({
            let bytes = if kept.len() > 0 {
                kept
            } else {
                head_message(before.link.received)
            };
            let found = kept.len() > 0 || !before.closed && has_message(before);
            &&& found ==> {
                &&& res is Ready && res->Ready_0 is Ok
                &&& res->Ready_0->Ok_0 <= buf.len()
                &&& res->Ready_0->Ok_0 <= bytes.len()
                &&& res->Ready_0->Ok_0 == buf.len() || res->Ready_0->Ok_0 == bytes.len()
                &&& filled.len() == buf.len()
                &&& filled.take(res->Ready_0->Ok_0 as int) + still_kept == bytes
                &&& after.pending_receiver == before.pending_receiver
            }
            &&& kept.len() > 0 ==> after == before
            &&& kept.len() == 0 && found ==> after.last_update_ms == now_ms
                && before.link.received.skip(
                head_count(before.link.received) as int,
            ).is_prefix_of(after.link.received)
            &&& !found ==> filled == buf && still_kept.len() == 0
            &&& !found && before.closed ==> after == before && res == Poll::<
                Result<usize, KcpError>,
            >::Ready(Ok(0))
            &&& !found && !before.closed ==> res is Pending && after.pending_receiver
                && after.last_update_ms == before.last_update_ms
        }),
{
    if kept.len() > 0 || !before.closed && has_message(before) {
        let n = res->Ready_0->Ok_0;
        let bytes = if kept.len() > 0 {
            kept
        } else {
            head_message(before.link.received)
        };
        assert(filled.take(n as int) =~= bytes.take(n as int));
        assert(bytes.take(n as int) + bytes.skip(n as int) =~= bytes);
    }
}

/// Sending all of a buffer stops early only for a cause: it waits only where the connection
/// is open, has sent before and has no room, and then the writer is noted as waiting; and
/// it fails only with a broken pipe.
pub proof fn law_sending_all_stops_for_a_cause(
    before: KcpSocket,
    buf: Seq<u8>,
    from: int,
    now_ms: u64,
    after: KcpSocket,
    upto: int,
    res: Poll<Result<usize, KcpError>>,
)
    requires
        sends_all(before, buf, from, now_ms, after, upto, res),
    ensures
        res is Pending ==> !after@.closed && after@.sent_first && !has_room(after@)
            && after@.pending_sender,
        res matches Poll::Ready(Err(err)) ==> err.spec_kind() == ErrorKind::BrokenPipe,
{
    if buf.len() > 0 && !(res is Ready && res->Ready_0 is Ok) {
        let (states, marks) = choose|states: Seq<KcpSocket>, marks: Seq<int>|
            {
                &&& #[trigger] send_chain(states, marks, buf, now_ms)
                &&& states.first() == before
                &&& marks.first() == from
                &&& marks.last() == upto
                &&& upto < buf.len() && transmits(
                    states.last(),
                    buf.skip(upto),
                    now_ms,
                    after,
                    res,
                )
            };
        assert(transmits(states.last(), buf.skip(upto), now_ms, after, res));
    }
}

} // verus!
