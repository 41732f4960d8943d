//! What holds of a stream's operations.

use crate::error::{ErrorKind, KcpError};
use crate::link::head_message;
use crate::skcp::laws::waking::{has_message, has_room};
use crate::skcp::{KcpSocket, Poll};
use crate::stream::laws::{
    law_all_or_waiting, law_reader_gets_as_much_as_fits, law_sending_all_stops_for_a_cause,
};
use crate::stream::{sends_all, KcpStream};
use vstd::prelude::*;

verus! {

/// Reading a stream gives as many bytes as fit of what was kept or else of the next message,
/// and keeps the rest; it waits, noted as waiting, only where there are none, and is at the
/// end only where the connection is closed and nothing is kept.
pub proof fn law_reading_a_stream(
    stream: &mut KcpStream,
    kcp: &mut KcpSocket,
    buf: &mut [u8],
    now_ms: u64,
    res: Poll<Result<usize, KcpError>>,
)
    requires
        call_ensures(KcpStream::poll_recv, (stream, kcp, buf, now_ms), res),
    ensures
        ({
            let bytes = if old(stream)@.len() > 0 {
                old(stream)@
            } else {
                head_message(old(kcp)@.link.received)
            };
            let found = old(stream)@.len() > 0 || !old(kcp)@.closed && has_message(old(kcp)@);
            &&& found ==> {
                &&& res is Ready && res->Ready_0 is Ok
                &&& res->Ready_0->Ok_0 == old(buf)@.len() || res->Ready_0->Ok_0 == bytes.len()
                &&& final(buf)@.take(res->Ready_0->Ok_0 as int) + final(stream)@ == bytes
            }
            &&& !found ==> final(buf)@ == old(buf)@ && final(stream)@.len() == 0
            &&& !found && old(kcp)@.closed ==> res == Poll::<Result<usize, KcpError>>::Ready(Ok(0))
            &&& !found && !old(kcp)@.closed ==> res is Pending && final(kcp)@.pending_receiver
        }),
{
    law_reader_gets_as_much_as_fits(
        old(stream)@,
        old(kcp)@,
        old(buf)@,
        now_ms,
        final(stream)@,
        final(kcp)@,
        final(buf)@,
        res,
    );
}

/// Sending all of a buffer goes on where it stopped, and is done exactly when all is sent.
/// It waits only where the connection has no room, and fails only with a broken pipe.
pub proof fn law_sending_all_of_a_buffer(
    stream: &mut KcpStream,
    kcp: &mut KcpSocket,
    buf: &[u8],
    sent: &mut usize,
    now_ms: u64,
    res: Poll<Result<usize, KcpError>>,
)
    requires
        call_ensures(KcpStream::poll_send_all, (stream, kcp, buf, sent, now_ms), res),
        buf@.len() > 0,
    ensures
        *old(sent) <= *final(sent) <= buf@.len(),
        res matches Poll::Ready(Ok(n)) ==> n == buf@.len() && *final(sent) == buf@.len(),
        res is Pending ==> *final(sent) < buf@.len() && !final(kcp)@.closed
            && final(kcp)@.sent_first && !has_room(final(kcp)@) && final(kcp)@.pending_sender,
        res matches Poll::Ready(Err(err)) ==> err.spec_kind() == ErrorKind::BrokenPipe,
        final(stream)@ == old(stream)@,
        sends_all(
            *old(kcp),
            buf@,
            *old(sent) as int,
            now_ms,
            *final(kcp),
            *final(sent) as int,
            res,
        ),
{
    let from = *old(sent) as int;
    let upto = *final(sent) as int;
    law_all_or_waiting(*old(kcp), buf@, from, now_ms, *final(kcp), upto, res);
    law_sending_all_stops_for_a_cause(*old(kcp), buf@, from, now_ms, *final(kcp), upto, res);
}

} // verus!
