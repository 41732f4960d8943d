//! Reading and writing a connection with buffers of any size.

use crate::error::KcpError;
use crate::link::{head_message, peek};
use crate::skcp::laws::law_reported_bytes_are_sent;
use crate::skcp::{transmits, KcpSocket, Poll, SocketState};
use vstd::prelude::*;

pub mod laws;

verus! {

/// The smaller of two lengths.
pub open spec fn least(a: nat, b: nat) -> nat {
    if a < b {
        a
    } else {
        b
    }
}

/// A reader and writer of a connection. It keeps the rest of a message that did not fit
/// the reader's buffer.
#[derive(Debug)]
pub struct KcpStream {
    recv_buffer: Vec<u8>,
    recv_buffer_pos: usize,
    recv_buffer_cap: usize,
}

impl View for KcpStream {
    type V = Seq<u8>;

    /// The bytes that are read next, before anything of the connection is.
    closed spec fn view(&self) -> Seq<u8> {
        self.recv_buffer@.subrange(self.recv_buffer_pos as int, self.recv_buffer_cap as int)
    }
}

/// What becomes of the kept bytes `kept`, of the connection `before` and of `buf` when a
/// reader waits for bytes.
///
/// Bytes that were kept come first. Else the next message is read: what of it fits `buf`
/// is delivered, and the rest is kept. A message without bytes is passed over, unless
/// such messages are to be delivered. A closed connection delivers nothing.
pub open spec fn reads(
    kept: Seq<u8>,
    before: SocketState,
    buf: Seq<u8>,
    now_ms: u64,
    still_kept: Seq<u8>,
    after: SocketState,
    filled: Seq<u8>,
    res: Poll<Result<usize, KcpError>>,
) -> bool {
    if kept.len() > 0 {
        &&& after == before
        &&& delivers(kept, buf, still_kept, filled, res)
    } else if before.closed {
        &&& after == before
        &&& filled == buf
        &&& still_kept.len() == 0
        &&& res == Poll::<Result<usize, KcpError>>::Ready(Ok(0))
    } else {
        match peek(before.link.received) {
            Ok(size) if size > 0 || before.allow_recv_empty_packet => {
                &&& after.link.took_head(before.link)
                &&& after == (SocketState { link: after.link, last_update_ms: now_ms, ..before })
                &&& delivers(head_message(before.link.received), buf, still_kept, filled, res)
            },
            Ok(_) => {
                &&& after.link.took_head(before.link)
                &&& after == (SocketState { link: after.link, pending_receiver: true, ..before })
                &&& filled == buf
                &&& still_kept.len() == 0
                &&& res is Pending
            },
            Err(_) => {
                &&& after == (SocketState { pending_receiver: true, ..before })
                &&& filled == buf
                &&& still_kept.len() == 0
                &&& res is Pending
            },
        }
    }
}

/// Of `bytes`, what fits `buf` is put to its front, and the rest is kept.
pub open spec fn delivers(
    bytes: Seq<u8>,
    buf: Seq<u8>,
    still_kept: Seq<u8>,
    filled: Seq<u8>,
    res: Poll<Result<usize, KcpError>>,
) -> bool {
    let n = least(bytes.len(), buf.len()) as int;
    &&& filled == bytes.take(n) + buf.skip(n)
    &&& still_kept == bytes.skip(n)
    &&& res matches Poll::Ready(Ok(count)) && count == n
}

/// `states` and `marks` record how `buf` is sent piece by piece: in state `states[i]` the
/// first `marks[i]` bytes are on their way.
pub open spec fn send_chain(
    states: Seq<KcpSocket>,
    marks: Seq<int>,
    buf: Seq<u8>,
    now_ms: u64,
) -> bool {
    &&& states.len() == marks.len()
    &&& states.len() > 0
    &&& forall|i: int| 0 <= i < marks.len() ==> 0 <= #[trigger] marks[i] <= buf.len()
    &&& forall|i: int|
        #![trigger marks[i]]
        #![trigger states[i]]
        0 < i < marks.len() ==> marks[i - 1] < marks[i] && transmits(
            states[i - 1],
            buf.skip(marks[i - 1]),
            now_ms,
            states[i],
            Poll::Ready(Ok((marks[i] - marks[i - 1]) as usize)),
        )
}

/// What becomes of the connection `before` when a writer goes on sending `buf`, of which
/// `from` bytes are on their way: it sends piece by piece until all of it, then `upto`
/// bytes, is on its way, or until it has to wait, or until something fails.
pub open spec fn sends_all(
    before: KcpSocket,
    buf: Seq<u8>,
    from: int,
    now_ms: u64,
    after: KcpSocket,
    upto: int,
    res: Poll<Result<usize, KcpError>>,
) -> bool {
    if buf.len() == 0 {
        transmits(before, buf, now_ms, after, res) && upto == from
    } else {
        exists|states: Seq<KcpSocket>, marks: Seq<int>|
            {
                &&& #[trigger] send_chain(states, marks, buf, now_ms)
                &&& states.first() == before
                &&& marks.first() == from
                &&& marks.last() == upto
                &&& match res {
                    Poll::Ready(Ok(n)) => n == buf.len() && upto == buf.len() && after
                        == states.last(),
                    _ => upto < buf.len() && transmits(
                        states.last(),
                        buf.skip(upto),
                        now_ms,
                        after,
                        res,
                    ),
                }
            }
    }
}

/// Copies the front of `bytes` to the front of `buf`.
fn fill_front(buf: &mut [u8], bytes: &[u8])
    requires
        bytes@.len() <= old(buf)@.len(),
    ensures
        final(buf)@ == bytes@ + old(buf)@.skip(bytes@.len() as int),
{
    let len: usize = bytes.len();
    let mut i: usize = 0;
    while i < len
        invariant
            len == bytes@.len(),
            i <= len,
            buf@.len() == old(buf)@.len(),
            len <= buf@.len(),
            buf@ =~= bytes@.take(i as int) + old(buf)@.skip(i as int),
        decreases len - i,
    {
        buf[i] = bytes[i];
        i += 1;
    }
    assert(buf@ =~= bytes@ + old(buf)@.skip(len as int));
}

impl KcpStream {
    /// The marks lie within the buffer.
    pub closed spec fn wf(&self) -> bool {
        self.recv_buffer_pos <= self.recv_buffer_cap <= self.recv_buffer@.len()
    }

    /// A stream that has kept nothing.
    pub fn new() -> (stream: KcpStream)
        ensures
            stream.wf(),
            stream@ == Seq::<u8>::empty(),
    {
        let stream = KcpStream { recv_buffer: Vec::new(), recv_buffer_pos: 0, recv_buffer_cap: 0 };
        assert(stream@ =~= Seq::<u8>::empty());
        stream
    }

    /// Sends `buf`, or waits until there is room for it.
    pub fn poll_send(&mut self, kcp: &mut KcpSocket, buf: &[u8], now_ms: u64) -> (res: Poll<
        Result<usize, KcpError>,
    >)
        requires
            old(kcp).wf(),
        ensures
            *final(self) == *old(self),
            final(kcp).wf(),
            transmits(*old(kcp), buf@, now_ms, *final(kcp), res),
    {
        kcp.poll_send(buf, now_ms)
    }

    /// Delivers what was kept, as far as it fits.
    fn take_kept(&mut self, buf: &mut [u8]) -> (res: Poll<Result<usize, KcpError>>)
        requires
            old(self).wf(),
        ensures
            final(self).wf(),
            delivers(old(self)@, old(buf)@, final(self)@, final(buf)@, res),
    {
        let kept: usize = self.recv_buffer_cap - self.recv_buffer_pos;
        let n: usize = if kept < buf.len() {
            kept
        } else {
            buf.len()
        };
        let end: usize = self.recv_buffer_pos + n;
        let bytes = &self.recv_buffer.as_slice()[self.recv_buffer_pos..end];
        assert(bytes@ =~= old(self)@.take(n as int));
        fill_front(buf, bytes);
        self.recv_buffer_pos = end;
        assert(self@ =~= old(self)@.skip(n as int));
        Poll::Ready(Ok(n))
    }

    /// Reads what there is into `buf`, or waits until there is something. A message that
    /// is larger than `buf` is read piece by piece.
    pub fn poll_recv(
        &mut self,
        kcp: &mut KcpSocket,
        buf: &mut [u8],
        now_ms: u64,
    ) -> (res: Poll<Result<usize, KcpError>>)
        requires
            old(self).wf(),
            old(kcp).wf(),
        ensures
            final(self).wf(),
            final(kcp).wf(),
            reads(
                old(self)@,
                old(kcp)@,
                old(buf)@,
                now_ms,
                final(self)@,
                final(kcp)@,
                final(buf)@,
                res,
            ),
            final(kcp).machine() == (if old(self)@.len() > 0 {
                old(kcp).machine()
            } else {
                old(kcp).machine_after_take()
            }),
            final(kcp).channel() == old(kcp).channel(),
    {
        if self.recv_buffer_pos < self.recv_buffer_cap {
            return self.take_kept(buf);
        }
        let peek_size: usize = match kcp.peek_size() {
            Ok(size) => size,
            Err(_) => 0,
        };
        if peek_size > 0 && peek_size <= buf.len() {
            let ghost message = head_message(kcp@.link.received);
            let res = kcp.poll_recv(buf, now_ms);
            assert(self@ =~= message.skip(message.len() as int));
            assert(message.take(message.len() as int) =~= message);
            return res;
        }
        if self.recv_buffer.len() < peek_size {
            self.recv_buffer.resize(peek_size, 0);
        }
        let ghost message = head_message(kcp@.link.received);
        assert(self@ =~= Seq::<u8>::empty());
        match kcp.poll_recv(self.recv_buffer.as_mut_slice(), now_ms) {
            Poll::Ready(Ok(n)) => {
                if n == 0 {
                    assert(self@ =~= Seq::<u8>::empty());
                    assert(message.len() == 0 ==> message.take(0) + old(buf)@.skip(0)
                        =~= old(buf)@ && message.skip(0) =~= self@);
                    return Poll::Ready(Ok(0));
                }
                self.recv_buffer_pos = 0;
                self.recv_buffer_cap = n;
                assert(self@ =~= message);
                self.take_kept(buf)
            },
            res => res,
        }
    }

    /// Goes on sending `buf`, of which `sent` bytes are on their way already, until all of
    /// it is or until it has to wait. Updates `sent`.
    #[verifier::spinoff_prover]
    #[verifier::rlimit(50)]
    pub fn poll_send_all(
        &mut self,
        kcp: &mut KcpSocket,
        buf: &[u8],
        sent: &mut usize,
        now_ms: u64,
    ) -> (res: Poll<Result<usize, KcpError>>)
        requires
            old(kcp).wf(),
            *old(sent) <= buf@.len(),
        ensures
            *final(self) == *old(self),
            final(kcp).wf(),
            sends_all(
                *old(kcp),
                buf@,
                *old(sent) as int,
                now_ms,
                *final(kcp),
                *final(sent) as int,
                res,
            ),
    {
        if buf.len() == 0 {
            return kcp.poll_send(buf, now_ms);
        }
        let ghost mut states: Seq<KcpSocket> = seq![*kcp];
        let ghost mut marks: Seq<int> = seq![*sent as int];
        while *sent < buf.len()
            invariant
                kcp.wf(),
                *sent <= buf@.len(),
                buf@.len() > 0,
                send_chain(states, marks, buf@, now_ms),
                states.first() == *old(kcp),
                marks.first() == *old(sent) as int,
                states.last() == *kcp,
                marks.last() == *sent,
                *self == *old(self),
            decreases buf.len() - *sent,
        {
            let piece = &buf[*sent..buf.len()];
            assert(piece@ =~= buf@.skip(*sent as int));
            let ghost before = *kcp;
            proof {
                kcp.lemma_wf();
            }
            match kcp.poll_send(piece, now_ms) {
                Poll::Ready(Ok(n)) => {
                    proof {
                        law_reported_bytes_are_sent(before@, piece@, now_ms, kcp@, n);
                        let more = states.push(*kcp);
                        let further = marks.push(*sent + n);
                        assert forall|i: int| 0 < i < further.len() implies #[trigger] further[i
                            - 1] < further[i] && transmits(
                            more[i - 1],
                            buf@.skip(further[i - 1]),
                            now_ms,
                            more[i],
                            Poll::Ready(Ok((further[i] - further[i - 1]) as usize)),
                        ) by {
                            if i < marks.len() {
                                assert(further[i - 1] == marks[i - 1] && further[i] == marks[i]);
                                assert(more[i - 1] == states[i - 1] && more[i] == states[i]);
                            }
                        }
                        states = more;
                        marks = further;
                    }
                    *sent = *sent + n;
                },
                res => return res,
            }
        }
        Poll::Ready(Ok(*sent))
    }
}

} // verus!
