//! One KCP connection: the protocol machine with forward error correction in front of
//! it, and the readers and writers that wait for it.

use crate::codec::shard_views;
use crate::config::KcpConfig;
use crate::error::{broken_pipe, io_error_kind, read_kcp_error, ErrorKind, FecError, KcpError};
use crate::fec::decoder::{Decoded, DecoderState};
use crate::fec::packet::{marked_data, marked_parity, payload_of};
use crate::fec::{data_payload, is_fec_packet, FecDecoder};
use crate::link::{
    check, clamped_interval, flush, flush_ack, head_message, input, input_conv, input_facts,
    is_stream, kcp_channel, kcp_check, kcp_conv, kcp_flush, kcp_flush_ack, kcp_input, kcp_quiet,
    kcp_recv, kcp_send_all, kcp_set_conv, kcp_update, kcp_with_conv, lemma_message_is_taken,
    lemma_sent_nothing, lemma_sent_twice, link, mss, new_message_kcp, new_stream_kcp,
    nothing_to_write, peek, peeksize, recv, refused, rmt_wnd, send, snd_wnd, undisturbed,
    update, wait_snd, waiting_conv, KCP_MOST_FRAGMENTS, LinkState, UdpOutput,
};
use crate::utils::{duration_nanos, epoch_millis_spec, now_millis_u64, wall_reading};
use kcp::Kcp;
use std::time::Duration;
use std::time::SystemTime;
use tokio::sync::mpsc::Sender;
use vstd::prelude::*;

pub mod laws;

verus! {

/// An operation that may have to wait.
#[derive(Debug)]
pub enum Poll<T> {
    /// It is done.
    Ready(T),
    /// It has to be tried again after a wake-up.
    Pending,
}

/// Who is to be woken.
#[derive(Debug, Clone, Copy, PartialEq, Eq, Structural)]
pub struct Wakes {
    /// The writer that waited for room.
    pub sender: bool,
    /// The reader that waited for a message.
    pub receiver: bool,
}

/// The state of a connection.
pub struct SocketState {
    /// The protocol machine.
    pub link: LinkState,
    /// When something last came in, was read or was written, in milliseconds.
    pub last_update_ms: u64,
    /// Time between updates while nothing is under way, in milliseconds.
    pub update_interval_ms: u64,
    /// Write out after every message.
    pub flush_write: bool,
    /// Acknowledge after every packet.
    pub flush_ack_input: bool,
    /// A message has been sent.
    pub sent_first: bool,
    /// A writer waits.
    pub pending_sender: bool,
    /// A reader waits.
    pub pending_receiver: bool,
    /// Who is to be woken.
    pub wakes: Wakes,
    /// The connection is closed.
    pub closed: bool,
    /// Messages without bytes are delivered.
    pub allow_recv_empty_packet: bool,
    /// The decoder of forward error correction, if that is on.
    pub fec: Option<DecoderState>,
}

/// There is a message to be read.
pub open spec fn readable(state: LinkState, allow_empty: bool) -> bool {
    match peek(state.received) {
        Ok(size) => allow_empty || size > 0,
        Err(_) => false,
    }
}

/// The low 32 bits of a time.
pub open spec fn low32(now_ms: u64) -> u32 {
    (now_ms % 0x1_0000_0000) as u32
}

impl SocketState {
    /// The machine is running and the decoder is well formed.
    pub open spec fn wf(self) -> bool {
        &&& self.link.updated
        &&& self.link.mss > 0
        &&& self.update_interval_ms == self.link.interval
        &&& match self.fec {
            Some(decoder) => decoder.wf(),
            None => true,
        }
    }

    /// A waiting writer is due to be woken.
    pub open spec fn sender_due(self) -> bool {
        self.pending_sender && self.link.ready_to_send()
    }

    /// A waiting reader is due to be woken.
    pub open spec fn receiver_due(self) -> bool {
        self.pending_receiver && readable(self.link, self.allow_recv_empty_packet)
    }

    /// The state after these have been woken.
    pub open spec fn woken(self, sender: bool, receiver: bool) -> SocketState {
        SocketState {
            pending_sender: self.pending_sender && !sender,
            pending_receiver: self.pending_receiver && !receiver,
            wakes: Wakes {
                sender: self.wakes.sender || sender,
                receiver: self.wakes.receiver || receiver,
            },
            ..self
        }
    }

    /// The state after everyone due has been woken.
    pub open spec fn all_woken(self) -> SocketState {
        self.woken(self.sender_due(), self.receiver_due())
    }

    /// The most bytes that are sent at a time: as many as KCP takes in one go, or one
    /// fragment for the first message if the conversation number is not known. In stream
    /// mode it is one fragment more, because KCP may have room for as much in the fragment
    /// that it fills up first.
    pub open spec fn most(self) -> int {
        if !self.sent_first && self.link.waiting_conv {
            self.link.mss as int
        } else if self.link.stream {
            self.link.one_go() + self.link.mss
        } else {
            self.link.one_go()
        }
    }

    /// The bytes of `buf` that are sent.
    pub open spec fn sendable(self, buf: Seq<u8>) -> Seq<u8> {
        if buf.len() > self.most() {
            buf.take(self.most())
        } else {
            buf
        }
    }
}

/// May a message be sent now? The first one always may; after that both windows must
/// have room and the conversation number must be known.
pub fn may_send(
    sent_first: bool,
    wait_snd: usize,
    snd_wnd: u16,
    rmt_wnd: u16,
    waiting_conv: bool,
) -> (may: bool)
    ensures
        may == (!sent_first || (wait_snd < snd_wnd && wait_snd < rmt_wnd && !waiting_conv)),
{
    !(sent_first && (wait_snd >= snd_wnd as usize || wait_snd >= rmt_wnd as usize
        || waiting_conv))
}

/// The smaller of `len` and `fragments` times `mss`.
fn capped(len: usize, fragments: usize, mss: usize) -> (n: usize)
    ensures
        n == (if len > fragments * mss {
            fragments * mss
        } else {
            len as int
        }),
{
    match mss.checked_mul(fragments) {
        Some(most) => {
            assert(mss * fragments == fragments * mss) by (nonlinear_arith);
            if len > most {
                most
            } else {
                len
            }
        },
        None => {
            assert(mss * fragments == fragments * mss) by (nonlinear_arith);
            len
        },
    }
}

/// How many of `len` bytes are sent at a time: as many as KCP takes in one go, and in
/// stream mode a fragment more; but no more than one fragment for the first message if the
/// conversation number is not known.
pub fn send_len(
    sent_first: bool,
    waiting_conv: bool,
    stream: bool,
    len: usize,
    mss: usize,
) -> (n: usize)
    ensures
        ({
            let most = if !sent_first && waiting_conv {
                mss as int
            } else if stream {
                (KCP_MOST_FRAGMENTS + 1) * mss
            } else {
                KCP_MOST_FRAGMENTS * mss
            };
            n == if len > most {
                most
            } else {
                len as int
            }
        }),
{
    if !sent_first && waiting_conv {
        capped(len, 1, mss)
    } else if stream {
        capped(len, KCP_MOST_FRAGMENTS + 1, mss)
    } else {
        capped(len, KCP_MOST_FRAGMENTS, mss)
    }
}

/// What a packet's outcome means for the connection: `Ok(false)` for a packet of
/// another conversation, which is passed over.
pub fn accepted(outcome: Result<usize, KcpError>) -> (res: Result<bool, KcpError>)
    ensures
        match outcome {
            Ok(_) => res == Ok::<bool, KcpError>(true),
            Err(KcpError::ConvInconsistent(_, _)) => res == Ok::<bool, KcpError>(false),
            Err(err) => res == Err::<bool, KcpError>(err),
        },
{
    match outcome {
        Ok(_) => Ok(true),
        Err(KcpError::ConvInconsistent(_, _)) => Ok(false),
        Err(err) => Err(err),
    }
}

/// The milliseconds until the next update: the update interval while nothing is under
/// way, else what the machine asks for.
pub fn next_delay_ms(wait_snd: usize, update_interval_ms: u64, check: u32) -> (delay: u64)
    ensures
        delay == (if wait_snd == 0 {
            update_interval_ms
        } else {
            check as u64
        }),
{
    if wait_snd == 0 {
        update_interval_ms
    } else {
        check as u64
    }
}

/// One KCP connection.
#[derive(Debug)]
pub struct KcpSocket {
    kcp: Kcp<UdpOutput>,
    last_update_ms: u64,
    update_interval_ms: u64,
    flush_write: bool,
    flush_ack_input: bool,
    sent_first: bool,
    pending_sender: bool,
    pending_receiver: bool,
    wakes: Wakes,
    closed: bool,
    allow_recv_empty_packet: bool,
    fec_decoder: Option<FecDecoder>,
}

impl View for KcpSocket {
    type V = SocketState;

    closed spec fn view(&self) -> SocketState {
        SocketState {
            link: link(self.kcp),
            last_update_ms: self.last_update_ms,
            update_interval_ms: self.update_interval_ms,
            flush_write: self.flush_write,
            flush_ack_input: self.flush_ack_input,
            sent_first: self.sent_first,
            pending_sender: self.pending_sender,
            pending_receiver: self.pending_receiver,
            wakes: self.wakes,
            closed: self.closed,
            allow_recv_empty_packet: self.allow_recv_empty_packet,
            fec: match self.fec_decoder {
                Some(decoder) => Some(decoder@),
                None => None,
            },
        }
    }
}

/// `after` and `res` are what becomes of the connection `before` when `buf` is sent.
///
/// A closed connection is a broken pipe. A connection that has sent before waits while a
/// window is full or the conversation number is not known. Else KCP takes as many bytes as
/// are sent at a time; if that fills a window, or if every message is to be, they are
/// written out, which may fail.
pub open spec fn sends(
    before: SocketState,
    buf: Seq<u8>,
    now_ms: u64,
    after: SocketState,
    res: Poll<Result<usize, KcpError>>,
) -> bool {
    let sent = before.link.send_all(before.sendable(buf));
    if before.closed {
        &&& after == before
        &&& res matches Poll::Ready(Err(KcpError::IoError(err)))
        &&& io_error_kind(err) == ErrorKind::BrokenPipe
    } else if before.sent_first && !before.link.ready_to_send() {
        after == (SocketState { pending_sender: true, ..before }) && res is Pending
    } else {
        &&& after == (SocketState {
            link: after.link,
            sent_first: true,
            last_update_ms: after.last_update_ms,
            ..before
        })
        &&& after.link.sent_from(sent)
        &&& !sent.windows_full() && !before.flush_write ==> after.link == sent
        &&& match res {
            Poll::Ready(Ok(n)) => n == before.sendable(buf).len() && after.last_update_ms
                == now_ms,
            Poll::Ready(Err(err)) => {
                &&& err is IoError
                &&& err.spec_kind() == ErrorKind::BrokenPipe
                &&& {
                    ||| sent.windows_full() && after.last_update_ms == before.last_update_ms
                    ||| before.flush_write && after.last_update_ms == now_ms
                }
            },
            Poll::Pending => false,
        }
    }
}

/// `after`, `filled` and `res` are what becomes of the connection `before` and of `buf`
/// when the first message is asked for.
pub open spec fn tries_recv(
    before: SocketState,
    buf: Seq<u8>,
    after: SocketState,
    filled: Seq<u8>,
    res: Result<usize, KcpError>,
) -> bool {
    if before.closed {
        after == before && filled == buf && res == Ok::<usize, KcpError>(0)
    } else {
        match peek(before.link.received) {
            Ok(size) if size <= buf.len() => {
                &&& after == SocketState { link: after.link, ..before }
                &&& after.link.took_head(before.link)
                &&& filled == head_message(before.link.received) + buf.skip(size as int)
                &&& res is Ok && res->Ok_0 == size
            },
            Ok(_) => after == before && filled == buf && res == Err::<usize, KcpError>(
                KcpError::UserBufTooSmall,
            ),
            Err(err) => after == before && filled == buf && res == Err::<usize, KcpError>(err),
        }
    }
}

/// `after`, `filled` and `res` are what becomes of the connection `before` and of `buf`
/// when the first message is waited for.
pub open spec fn receives(
    before: SocketState,
    buf: Seq<u8>,
    now_ms: u64,
    after: SocketState,
    filled: Seq<u8>,
    res: Poll<Result<usize, KcpError>>,
) -> bool {
    if before.closed {
        after == before && filled == buf && res == Poll::<Result<usize, KcpError>>::Ready(Ok(0))
    } else {
        match peek(before.link.received) {
            Ok(size) if size <= buf.len() => {
                &&& after.link.took_head(before.link)
                &&& filled == head_message(before.link.received) + buf.skip(size as int)
                &&& if size > 0 || before.allow_recv_empty_packet {
                    &&& after == (SocketState {
                        link: after.link,
                        last_update_ms: now_ms,
                        ..before
                    })
                    &&& res matches Poll::Ready(Ok(n)) && n == size
                } else {
                    &&& after == (SocketState {
                        link: after.link,
                        pending_receiver: true,
                        ..before
                    })
                    &&& res is Pending
                }
            },
            Ok(_) => after == before && filled == buf && res
                == Poll::<Result<usize, KcpError>>::Ready(Err(KcpError::UserBufTooSmall)),
            Err(_) => after == (SocketState { pending_receiver: true, ..before }) && filled == buf
                && res is Pending,
        }
    }
}

/// `after` and `res` are what becomes of the connection `before` when KCP is told the
/// time: some fragments may be sent, a writer that can go on is woken, and the next time
/// is after the update interval or, while something is under way, when KCP asks for it.
///
/// It fails only if nobody reads the output; not if there is nothing to write, and not
/// before KCP wants to be told.
pub open spec fn updates(
    before: KcpSocket,
    now_ms: u64,
    after: KcpSocket,
    res: Result<Duration, KcpError>,
) -> bool {
    exists|state: LinkState| #[trigger]
        state.sent_from(before@.link) && {
            let fed = SocketState { link: state, ..before@ };
            let next_ms = if state.wait_snd() == 0 {
                before@.update_interval_ms as int
            } else {
                kcp_check(after.machine(), low32(now_ms)) as int
            };
            &&& match res {
                Ok(delay) => {
                    &&& after.machine() == kcp_update(before.machine(), low32(now_ms))
                    &&& kcp_quiet(before.machine()) ==> kcp_quiet(after.machine())
                    &&& after@ == fed.woken(fed.sender_due(), false)
                    &&& duration_nanos(delay) == next_ms * 1_000_000
                    &&& next_ms <= before@.update_interval_ms
                },
                Err(err) => {
                    &&& after@ == fed
                    &&& refused(before.machine(), err)
                    &&& !nothing_to_write(before.machine())
                    &&& kcp_check(before.machine(), low32(now_ms)) == 0
                },
            }
            &&& kcp_check(before.machine(), low32(now_ms)) > 0 ==> state == before@.link
        }
}

/// The error of a result, if it is one.
pub open spec fn failure_of<T>(res: Result<T, KcpError>) -> Option<KcpError> {
    match res {
        Ok(_) => None,
        Err(err) => Some(err),
    }
}

/// `after` is the connection `before` after it was flushed. That fails only if nobody reads
/// the output, and not if there is nothing to write.
pub open spec fn flushes(before: KcpSocket, after: KcpSocket, failure: Option<KcpError>) -> bool {
    &&& after@ == SocketState { link: after@.link, ..before@ }
    &&& after@.link.sent_from(before@.link)
    &&& after.channel() == before.channel()
    &&& match failure {
        None => after.machine() == kcp_flush(before.machine()) && kcp_quiet(after.machine()),
        Some(err) => refused(before.machine(), err) && !nothing_to_write(before.machine()),
    }
}

/// `after` is the connection `before`, flushed if that is due.
pub open spec fn flushes_if(
    due: bool,
    before: KcpSocket,
    after: KcpSocket,
    failure: Option<KcpError>,
) -> bool {
    if due {
        flushes(before, after, failure)
    } else {
        after == before && failure is None
    }
}

/// `queued` is the connection `before` with `buf`, as much of it as is sent at a time,
/// handed to KCP.
pub open spec fn enqueues(before: KcpSocket, buf: Seq<u8>, queued: KcpSocket) -> bool {
    &&& queued@ == SocketState {
        link: before@.link.send_all(before@.sendable(buf)),
        sent_first: true,
        ..before@
    }
    &&& queued.machine() == kcp_send_all(before.machine(), before@.sendable(buf))
}

/// `after` is what becomes of the connection `queued` that has been handed a message: it
/// is flushed if a window is full, and flushed if every message is to be. The first
/// failure is the end of it.
pub open spec fn writes_out(
    queued: KcpSocket,
    now_ms: u64,
    after: KcpSocket,
    failure: Option<KcpError>,
) -> bool {
    exists|room: KcpSocket, first: Option<KcpError>| #[trigger]
        flushes_if(queued@.link.windows_full(), queued, room, first) && if first is None {
            exists|timed: KcpSocket|
                {
                    &&& timed@ == SocketState { last_update_ms: now_ms, ..room@ }
                    &&& timed.machine() == room.machine()
                    &&& #[trigger] flushes_if(queued@.flush_write, timed, after, failure)
                }
        } else {
            after == room && failure == first
        }
}

/// `after` and `res` are what becomes of the connection `before` when `buf` is sent: the
/// states are as `sends` says, and KCP is handed the bytes and flushed as is due.
pub open spec fn transmits(
    before: KcpSocket,
    buf: Seq<u8>,
    now_ms: u64,
    after: KcpSocket,
    res: Poll<Result<usize, KcpError>>,
) -> bool {
    &&& sends(before@, buf, now_ms, after@, res)
    &&& after.channel() == before.channel()
    &&& match res {
        Poll::Ready(done) if !before@.closed => exists|queued: KcpSocket| #[trigger]
            enqueues(before, buf, queued) && writes_out(queued, now_ms, after, failure_of(done)),
        _ => after.machine() == before.machine(),
    }
}

/// `after` and `res` are what becomes of the connection `before` when KCP is handed
/// `packet` at time `now_ms`.
///
/// A packet of another conversation is passed over. A packet that KCP takes counts as
/// activity, and whoever can go on because of it is woken, unless it is to be acknowledged
/// at once and nobody reads the output.
pub open spec fn feeds(
    before: KcpSocket,
    packet: Seq<u8>,
    now_ms: u64,
    after: KcpSocket,
    res: Result<bool, KcpError>,
) -> bool {
    let (machine, outcome) = kcp_input(before.machine(), packet);
    let fed = SocketState { link: link(machine), ..before@ };
    let timed = SocketState { last_update_ms: now_ms, ..fed };
    &&& input_facts(before@.link, packet, link(machine), outcome)
    &&& link(machine).follows(before@.link)
    &&& after.wf()
    &&& after.channel() == before.channel()
    &&& match outcome {
        Ok(_) => match res {
            Ok(waked) => {
                &&& after@ == timed.all_woken()
                &&& after.machine() == if before@.flush_ack_input {
                    kcp_flush_ack(machine)
                } else {
                    machine
                }
                &&& waked == (timed.sender_due() || timed.receiver_due())
            },
            Err(err) => {
                &&& before@.flush_ack_input
                &&& after@ == timed
                &&& refused(machine, err)
                &&& !kcp_quiet(machine)
            },
        },
        Err(KcpError::ConvInconsistent(_, _)) => {
            &&& after@ == fed
            &&& after.machine() == machine
            &&& res == Ok::<bool, KcpError>(false)
        },
        Err(err) => {
            &&& after@ == fed
            &&& after.machine() == machine
            &&& res == Err::<bool, KcpError>(err)
        },
    }
}

/// `after` and `res` are what becomes of `mid` when KCP is handed one more packet, unless
/// `so_far` is a failure.
pub open spec fn feeds_next(
    mid: KcpSocket,
    so_far: Result<bool, KcpError>,
    packet: Seq<u8>,
    now_ms: u64,
    after: KcpSocket,
    res: Result<bool, KcpError>,
) -> bool {
    match so_far {
        Ok(waked) => exists|last: Result<bool, KcpError>| #[trigger]
            feeds(mid, packet, now_ms, after, last) && match last {
                Ok(more) => res == Ok::<bool, KcpError>(waked || more),
                Err(_) => res == last,
            },
        Err(_) => after == mid && res == so_far,
    }
}

/// `after` and `res` are what becomes of `before` when KCP is handed these packets one
/// after the other, up to the first one that fails.
pub open spec fn feeds_all(
    before: KcpSocket,
    packets: Seq<Seq<u8>>,
    now_ms: u64,
    after: KcpSocket,
    res: Result<bool, KcpError>,
) -> bool
    decreases packets.len(),
{
    if packets.len() == 0 {
        after == before && res == Ok::<bool, KcpError>(false)
    } else {
        exists|mid: KcpSocket, so_far: Result<bool, KcpError>|
            feeds_all(before, packets.drop_last(), now_ms, mid, so_far) && #[trigger] feeds_next(
                mid,
                so_far,
                packets.last(),
                now_ms,
                after,
                res,
            )
    }
}

/// `after` and `res` are what becomes of the connection `before` when the payload of the
/// packet `packet`, if it carries one, is handed to KCP.
pub open spec fn feeds_direct(
    before: KcpSocket,
    packet: Seq<u8>,
    now_ms: u64,
    after: KcpSocket,
    res: Result<bool, KcpError>,
) -> bool {
    match payload_of(packet) {
        Some(payload) => feeds(before, payload, now_ms, after, res) && after@.fec == before@.fec,
        None => after == before && res == Ok::<bool, KcpError>(false),
    }
}

/// `after` is `before` with `packet` handed to its decoder.
pub open spec fn collects(before: KcpSocket, packet: Seq<u8>, after: KcpSocket) -> bool {
    &&& after.wf()
    &&& after.machine() == before.machine()
    &&& before@.fec is Some
    &&& after@ == SocketState { fec: Some(before@.fec->0.decode(packet).0), ..before@ }
}

/// `after` and `res` are what becomes of the connection `before` when it takes a packet
/// of forward error correction: its payload goes to KCP, the packet goes to the decoder,
/// and what the decoder rebuilds goes to KCP.
pub open spec fn feeds_fec(
    before: KcpSocket,
    packet: Seq<u8>,
    now_ms: u64,
    after: KcpSocket,
    res: Result<bool, KcpError>,
) -> bool {
    exists|direct: KcpSocket, first: Result<bool, KcpError>| #[trigger]
        feeds_direct(before, packet, now_ms, direct, first) && feeds_rest(
            direct,
            first,
            packet,
            now_ms,
            after,
            res,
        )
}

/// `after` and `res` are what becomes of the connection `direct` that was handed the
/// payload of `packet`, with the result `first`: the packet goes to the decoder, and what
/// that rebuilds goes to KCP.
pub open spec fn feeds_rest(
    direct: KcpSocket,
    first: Result<bool, KcpError>,
    packet: Seq<u8>,
    now_ms: u64,
    after: KcpSocket,
    res: Result<bool, KcpError>,
) -> bool {
    match first {
        Ok(waked) => {
            &&& direct@.fec is Some
            &&& direct@.fec->0.makes_good_losses(packet)
            &&& exists|ready: KcpSocket| #[trigger]
                collects(direct, packet, ready) && feeds_rebuilt(
                    ready,
                    direct@.fec->0.decode(packet).1,
                    waked,
                    now_ms,
                    after,
                    res,
                )
        },
        Err(_) => after == direct && res == first,
    }
}

/// `after` and `res` are what becomes of the connection `ready` whose decoder came to
/// `decoded`, if somebody was woken before or not.
pub open spec fn feeds_rebuilt(
    ready: KcpSocket,
    decoded: Decoded,
    waked: bool,
    now_ms: u64,
    after: KcpSocket,
    res: Result<bool, KcpError>,
) -> bool {
    match decoded {
        Decoded::Recovered(payloads) => exists|rest: Result<bool, KcpError>| #[trigger]
            feeds_all(ready, payloads, now_ms, after, rest) && res == (match rest {
                Ok(more) => Ok::<bool, KcpError>(waked || more),
                Err(_) => rest,
            }),
        Decoded::TooShort => after == ready && res == Err::<bool, KcpError>(
            KcpError::Fec(FecError::PacketTooShort),
        ),
        Decoded::Undecodable => after == ready && res is Err && res->Err_0 is Fec
            && res->Err_0->Fec_0 is Codec,
    }
}

/// `after` and `res` are what becomes of the connection `before` when it takes a datagram.
pub open spec fn takes_in(
    before: KcpSocket,
    packet: Seq<u8>,
    now_ms: u64,
    after: KcpSocket,
    res: Result<bool, KcpError>,
) -> bool {
    if before@.fec is Some && (marked_data(packet) || marked_parity(packet)) {
        feeds_fec(before, packet, now_ms, after, res)
    } else {
        feeds(before, packet, now_ms, after, res)
    }
}

/// The steps of a packet that was decoded, put together.
proof fn lemma_rebuilt_are_fed(
    before: KcpSocket,
    packet: Seq<u8>,
    now_ms: u64,
    direct: KcpSocket,
    first: Result<bool, KcpError>,
    ready: KcpSocket,
    after: KcpSocket,
    rest: Result<bool, KcpError>,
)
    requires
        feeds_direct(before, packet, now_ms, direct, first),
        first is Ok,
        collects(direct, packet, ready),
        direct@.fec->0.makes_good_losses(packet),
        direct@.fec->0.decode(packet).1 is Recovered,
        feeds_all(
            ready,
            direct@.fec->0.decode(packet).1->Recovered_0,
            now_ms,
            after,
            rest,
        ),
    ensures
        feeds_fec(
            before,
            packet,
            now_ms,
            after,
            match rest {
                Ok(more) => Ok::<bool, KcpError>(first->Ok_0 || more),
                Err(_) => rest,
            },
        ),
{
}

/// Once a packet has failed, the packets behind it are not looked at.
proof fn lemma_failed_stays_failed(
    before: KcpSocket,
    packets: Seq<Seq<u8>>,
    upto: int,
    now_ms: u64,
    after: KcpSocket,
    res: Result<bool, KcpError>,
)
    requires
        0 <= upto <= packets.len(),
        res is Err,
        feeds_all(before, packets.take(upto), now_ms, after, res),
    ensures
        feeds_all(before, packets, now_ms, after, res),
    decreases packets.len() - upto,
{
    if upto == packets.len() {
        assert(packets.take(upto) =~= packets);
    } else {
        let next = packets.take(upto + 1);
        assert(next.drop_last() =~= packets.take(upto));
        assert(feeds_next(after, res, next.last(), now_ms, after, res));
        lemma_failed_stays_failed(before, packets, upto + 1, now_ms, after, res);
    }
}

impl KcpSocket {
    /// The protocol machine.
    pub closed spec fn machine(&self) -> Kcp<UdpOutput> {
        self.kcp
    }

    /// The channel that packets are put into.
    pub open spec fn channel(&self) -> Sender<Vec<u8>> {
        kcp_channel(self.machine())
    }

    /// The state is well formed.
    pub closed spec fn wf(&self) -> bool {
        &&& self@.wf()
        &&& match self.fec_decoder {
            Some(decoder) => decoder.wf(),
            None => true,
        }
    }

    /// The protocol machine after the first message was taken out, if there is one and the
    /// connection is open.
    pub open spec fn machine_after_take(&self) -> Kcp<UdpOutput> {
        if peek(self@.link.received) is Ok && !self@.closed {
            kcp_recv(self.machine())
        } else {
            self.machine()
        }
    }

    /// The protocol machine after the first message was asked for, with a buffer of `len`
    /// bytes: one that does not fit stays.
    pub open spec fn machine_after_recv(&self, len: nat) -> Kcp<UdpOutput> {
        match peek(self@.link.received) {
            Ok(size) if size > len => self.machine(),
            _ => self.machine_after_take(),
        }
    }

    /// What a well-formed connection shows is well formed.
    pub proof fn lemma_wf(&self)
        requires
            self.wf(),
        ensures
            self@.wf(),
    {
    }

    /// What the connection shows of its protocol machine.
    pub proof fn lemma_link(&self)
        ensures
            self@.link == link(self.machine()),
    {
    }

    /// The state of a new connection.
    pub open spec fn start(c: &KcpConfig, conv: u32, stream: bool, now_ms: u64) -> SocketState {
        SocketState {
            link: LinkState {
                waiting_conv: conv == 0,
                updated: true,
                ..c.configured(LinkState::start(conv, stream))
            },
            last_update_ms: now_ms,
            update_interval_ms: clamped_interval(c.nodelay.interval as int) as u64,
            flush_write: c.flush_write,
            flush_ack_input: c.flush_acks_input,
            sent_first: false,
            pending_sender: false,
            pending_receiver: false,
            wakes: Wakes { sender: false, receiver: false },
            closed: false,
            allow_recv_empty_packet: c.allow_recv_empty_packet,
            fec: if c.fec.spec_enabled() {
                Some(
                    DecoderState {
                        data_shards: c.fec.data_shards as nat,
                        parity_shards: c.fec.parity_shards as nat,
                        newest: 0,
                        sets: Map::empty(),
                    },
                )
            } else {
                None
            },
        }
    }

    /// A connection with the conversation number `conv`; 0 asks the other side to
    /// choose one. It fails only for a configuration that is not usable.
    pub fn new(
        c: &KcpConfig,
        conv: u32,
        output: UdpOutput,
        stream: bool,
        now_ms: u64,
    ) -> (res: Result<KcpSocket, KcpError>)
        requires
            c.fault() is None ==> c.fits_memory(),
        ensures
            match c.fault() {
                Some(fault) => res == Err::<KcpSocket, KcpError>(KcpError::Config(fault)),
                None => {
                    &&& res is Ok
                    &&& res->Ok_0.wf()
                    &&& res->Ok_0@ == Self::start(c, conv, stream, now_ms)
                    &&& res->Ok_0.channel() == output.channel()
                    &&& kcp_quiet(res->Ok_0.machine())
                    &&& exists|kcp: Kcp<UdpOutput>| #[trigger]
                        kcp_update(kcp, low32(now_ms)) == res->Ok_0.machine() && link(kcp) == (
                        LinkState {
                            updated: false,
                            ..Self::start(c, conv, stream, now_ms).link
                        })
                },
            },
    {
        if let Err(err) = c.validate() {
            return Err(KcpError::Config(err));
        }
        let mut kcp = if stream {
            new_stream_kcp(conv, output)
        } else {
            new_message_kcp(conv, output)
        };
        c.apply_config(&mut kcp);
        if conv == 0 {
            input_conv(&mut kcp);
        }
        let ghost before = kcp;
        if let Err(err) = update(&mut kcp, (now_ms % 0x1_0000_0000) as u32) {
            assert(false);
            return Err(read_kcp_error(err));
        }
        assert(link(kcp).queue =~= link(before).queue);
        assert(kcp_update(before, low32(now_ms)) == kcp);
        let fec_decoder = if c.fec.enabled() {
            match FecDecoder::new(c.fec.data_shards, c.fec.parity_shards) {
                Ok(decoder) => Some(decoder),
                Err(err) => return Err(KcpError::Fec(err)),
            }
        } else {
            None
        };
        let interval: i32 = c.nodelay.interval;
        let update_interval_ms: u64 = if interval < 10 {
            10
        } else if interval > 5000 {
            5000
        } else {
            interval as u64
        };
        Ok(
            KcpSocket {
                kcp,
                last_update_ms: now_ms,
                update_interval_ms,
                flush_write: c.flush_write,
                flush_ack_input: c.flush_acks_input,
                sent_first: false,
                pending_sender: false,
                pending_receiver: false,
                wakes: Wakes { sender: false, receiver: false },
                closed: false,
                allow_recv_empty_packet: c.allow_recv_empty_packet,
                fec_decoder,
            },
        )
    }

    /// Takes a packet that came in. `Ok(true)` if somebody was woken by it.
    ///
    /// With forward error correction a packet may be one of its packets: then the
    /// payload of a data packet goes to KCP, and after it every payload that could be
    /// rebuilt.
    pub fn input(&mut self, buf: &[u8], now_ms: u64) -> (res: Result<bool, KcpError>)
        requires
            old(self).wf(),
        ensures
            final(self).wf(),
            takes_in(*old(self), buf@, now_ms, *final(self), res),
    {
        if self.fec_decoder.is_some() && is_fec_packet(buf) {
            return self.input_fec(buf, now_ms);
        }
        self.input_kcp(buf, now_ms)
    }

    fn input_fec(&mut self, buf: &[u8], now_ms: u64) -> (res: Result<bool, KcpError>)
        requires
            old(self).wf(),
            old(self)@.fec is Some,
        ensures
            final(self).wf(),
            feeds_fec(*old(self), buf@, now_ms, *final(self), res),
    {
        let mut waked = false;
        if let Some(payload) = data_payload(buf) {
            match self.input_kcp(payload, now_ms) {
                Ok(woke) => {
                    waked = woke;
                },
                Err(err) => {
                    assert(feeds_direct(
                        *old(self),
                        buf@,
                        now_ms,
                        *self,
                        Err::<bool, KcpError>(err),
                    ));
                    return Err(err);
                },
            }
        }
        let ghost direct = *self;
        let ghost first = Ok::<bool, KcpError>(waked);
        assert(feeds_direct(*old(self), buf@, now_ms, direct, first));
        let recovered = match &mut self.fec_decoder {
            Some(decoder) => decoder.decode(buf),
            None => Ok(Vec::new()),
        };
        let ghost ready = *self;
        assert(collects(direct, buf@, ready));
        let recovered = match recovered {
            Ok(recovered) => recovered,
            Err(err) => return Err(KcpError::Fec(err)),
        };
        let ghost payloads = shard_views(recovered@);
        let ghost mut rest = false;
        let mut i: usize = 0;
        while i < recovered.len()
            invariant
                self.wf(),
                i <= recovered.len(),
                payloads == shard_views(recovered@),
                collects(direct, buf@, ready),
                direct@.fec is Some,
                direct@.fec->0.makes_good_losses(buf@),
                direct@.fec->0.decode(buf@).1 == Decoded::Recovered(payloads),
                feeds_direct(*old(self), buf@, now_ms, direct, first),
                first is Ok,
                waked == (first->Ok_0 || rest),
                feeds_all(
                    ready,
                    payloads.take(i as int),
                    now_ms,
                    *self,
                    Ok::<bool, KcpError>(rest),
                ),
            decreases recovered.len() - i,
        {
            let ghost mid = *self;
            let res = self.input_kcp(recovered[i].as_slice(), now_ms);
            assert(recovered@[i as int]@ == payloads[i as int]);
            let ghost upto = payloads.take(i + 1);
            assert(upto.drop_last() =~= payloads.take(i as int));
            assert(upto.last() == payloads[i as int]);
            assert(feeds_all(ready, upto.drop_last(), now_ms, mid, Ok::<bool, KcpError>(rest)));
            assert(feeds(mid, upto.last(), now_ms, *self, res));
            match res {
                Ok(woke) => {
                    let ghost so_far = Ok::<bool, KcpError>(rest);
                    proof {
                        rest = rest || woke;
                    }
                    let ghost all = Ok::<bool, KcpError>(rest);
                    assert(feeds_next(mid, so_far, upto.last(), now_ms, *self, all));
                    waked = waked || woke;
                },
                Err(err) => {
                    let ghost so_far = Ok::<bool, KcpError>(rest);
                    let ghost all = Err::<bool, KcpError>(err);
                    assert(feeds_next(mid, so_far, upto.last(), now_ms, *self, all));
                    proof {
                        lemma_failed_stays_failed(
                            ready,
                            payloads,
                            i + 1,
                            now_ms,
                            *self,
                            Err::<bool, KcpError>(err),
                        );
                    }
                    proof {
                        lemma_rebuilt_are_fed(
                            *old(self),
                            buf@,
                            now_ms,
                            direct,
                            first,
                            ready,
                            *self,
                            all,
                        );
                    }
                    return Err(err);
                },
            }
            i += 1;
        }
        assert(payloads.take(i as int) =~= payloads);
        proof {
            lemma_rebuilt_are_fed(
                *old(self),
                buf@,
                now_ms,
                direct,
                first,
                ready,
                *self,
                Ok::<bool, KcpError>(rest),
            );
        }
        Ok(waked)
    }

    fn input_kcp(&mut self, buf: &[u8], now_ms: u64) -> (res: Result<bool, KcpError>)
        requires
            old(self).wf(),
        ensures
            final(self).wf(),
            final(self)@.fec == old(self)@.fec,
            feeds(*old(self), buf@, now_ms, *final(self), res),
    {
        let outcome = match input(&mut self.kcp, buf) {
            Ok(n) => Ok(n),
            Err(err) => Err(read_kcp_error(err)),
        };
        match accepted(outcome) {
            Ok(true) => {},
            other => return other,
        }
        self.last_update_ms = now_ms;
        if self.flush_ack_input {
            if let Err(err) = flush_ack(&mut self.kcp) {
                return Err(read_kcp_error(err));
            }
        }
        Ok(self.try_wake_pending_waker())
    }

    fn try_wake_pending_sender(&mut self) -> (woken: bool)
        ensures
            woken == old(self)@.sender_due(),
            final(self)@ == old(self)@.woken(woken, false),
            final(self).machine() == old(self).machine(),
            old(self).wf() ==> final(self).wf(),
    {
        if self.pending_sender && wait_snd(&self.kcp) < snd_wnd(&self.kcp) as usize && wait_snd(
            &self.kcp,
        ) < rmt_wnd(&self.kcp) as usize && !waiting_conv(&self.kcp) {
            self.pending_sender = false;
            self.wakes.sender = true;
            return true;
        }
        false
    }

    fn try_wake_pending_receiver(&mut self) -> (woken: bool)
        ensures
            woken == old(self)@.receiver_due(),
            final(self)@ == old(self)@.woken(false, woken),
            final(self).machine() == old(self).machine(),
            old(self).wf() ==> final(self).wf(),
    {
        if self.pending_receiver {
            if let Ok(peek) = peeksize(&self.kcp) {
                if self.allow_recv_empty_packet || peek > 0 {
                    self.pending_receiver = false;
                    self.wakes.receiver = true;
                    return true;
                }
            }
        }
        false
    }

    fn try_wake_pending_waker(&mut self) -> (woken: bool)
        ensures
            woken == (old(self)@.sender_due() || old(self)@.receiver_due()),
            final(self)@ == old(self)@.all_woken(),
            final(self).machine() == old(self).machine(),
            old(self).wf() ==> final(self).wf(),
    {
        let sender = self.try_wake_pending_sender();
        let receiver = self.try_wake_pending_receiver();
        sender || receiver
    }

    /// Writes out a message that KCP has been handed, if that is due.
    fn write_out(&mut self, now_ms: u64) -> (res: Result<(), KcpError>)
        requires
            old(self).wf(),
        ensures
            final(self).wf(),
            writes_out(*old(self), now_ms, *final(self), failure_of(res)),
            final(self).channel() == old(self).channel(),
            final(self)@ == (SocketState {
                link: final(self)@.link,
                last_update_ms: final(self)@.last_update_ms,
                ..old(self)@
            }),
            final(self)@.link.sent_from(old(self)@.link),
            !old(self)@.link.windows_full() && !old(self)@.flush_write ==> final(self)@.link
                == old(self)@.link,
            match res {
                Ok(()) => final(self)@.last_update_ms == now_ms,
                Err(err) => {
                    &&& err is IoError
                    &&& err.spec_kind() == ErrorKind::BrokenPipe
                    &&& {
                        ||| old(self)@.link.windows_full() && final(self)@.last_update_ms == old(
                            self,
                        )@.last_update_ms
                        ||| old(self)@.flush_write && final(self)@.last_update_ms == now_ms
                    }
                },
            },
    {
        proof {
            lemma_sent_nothing(link(self.kcp));
        }
        if wait_snd(&self.kcp) >= snd_wnd(&self.kcp) as usize || wait_snd(&self.kcp) >= rmt_wnd(
            &self.kcp,
        ) as usize {
            if let Err(err) = flush(&mut self.kcp) {
                let err = read_kcp_error(err);
                assert(flushes_if(old(self)@.link.windows_full(), *old(self), *self, Some(err)));
                return Err(err);
            }
        }
        assert(flushes_if(old(self)@.link.windows_full(), *old(self), *self, None));
        self.last_update_ms = now_ms;
        let ghost timed = *self;
        if self.flush_write {
            let flushed = flush(&mut self.kcp);
            proof {
                lemma_sent_twice(old(self)@.link, timed@.link, link(self.kcp));
            }
            if let Err(err) = flushed {
                let err = read_kcp_error(err);
                assert(flushes_if(old(self)@.flush_write, timed, *self, Some(err)));
                return Err(err);
            }
        }
        assert(flushes_if(old(self)@.flush_write, timed, *self, None));
        Ok(())
    }

    /// Hands as much of `buf` to KCP as is sent at a time. Returns how much that is.
    #[verifier::spinoff_prover]
    #[verifier::rlimit(50)]
    fn enqueue(&mut self, buf: &[u8]) -> (len: usize)
        requires
            old(self).wf(),
        ensures
            final(self).wf(),
            enqueues(*old(self), buf@, *final(self)),
            final(self).channel() == old(self).channel(),
            len == old(self)@.sendable(buf@).len(),
    {
        let mss: usize = mss(&self.kcp);
        let len: usize = send_len(
            self.sent_first,
            waiting_conv(&self.kcp),
            is_stream(&self.kcp),
            buf.len(),
            mss,
        );
        let first: usize = capped(len, KCP_MOST_FRAGMENTS, mss);
        let ghost data = old(self)@.sendable(buf@);
        assert(buf@.subrange(0, first as int) =~= data.take(first as int));
        proof {
            lemma_message_is_taken(old(self)@.link, data.take(first as int));
        }
        let taken = send(&mut self.kcp, &buf[0..first]);
        assert(taken is Ok);
        if first < len {
            assert(buf@.subrange(first as int, len as int) =~= data.skip(first as int));
            proof {
                lemma_message_is_taken(link(self.kcp), data.skip(first as int));
            }
            let taken = send(&mut self.kcp, &buf[first..len]);
            assert(taken is Ok);
        } else {
            assert(data.take(first as int) =~= data);
        }
        self.sent_first = true;
        assert(enqueues(*old(self), buf@, *self));
        len
    }

    /// Sends `buf`, or waits until there is room for it. Returns how many bytes of it are
    /// on their way.
    pub fn poll_send(&mut self, buf: &[u8], now_ms: u64) -> (res: Poll<Result<usize, KcpError>>)
        requires
            old(self).wf(),
        ensures
            final(self).wf(),
            transmits(*old(self), buf@, now_ms, *final(self), res),
    {
        if self.closed {
            return Poll::Ready(Err(KcpError::IoError(broken_pipe("broken pipe"))));
        }
        let waiting = waiting_conv(&self.kcp);
        if !may_send(
            self.sent_first,
            wait_snd(&self.kcp),
            snd_wnd(&self.kcp),
            rmt_wnd(&self.kcp),
            waiting,
        ) {
            self.pending_sender = true;
            return Poll::Pending;
        }
        let n: usize = self.enqueue(buf);
        match self.write_out(now_ms) {
            Ok(()) => Poll::Ready(Ok(n)),
            Err(err) => Poll::Ready(Err(err)),
        }
    }

    /// Takes the first message out, if there is one and it fits `buf`. A closed
    /// connection has none.
    pub fn try_recv(&mut self, buf: &mut [u8]) -> (res: Result<usize, KcpError>)
        requires
            old(self).wf(),
        ensures
            final(self).wf(),
            final(buf)@.len() == old(buf)@.len(),
            tries_recv(old(self)@, old(buf)@, final(self)@, final(buf)@, res),
            final(self).machine() == old(self).machine_after_recv(old(buf)@.len()),
            final(self).channel() == old(self).channel(),
    {
        if self.closed {
            return Ok(0);
        }
        match recv(&mut self.kcp, buf) {
            Ok(n) => Ok(n),
            Err(err) => Err(read_kcp_error(err)),
        }
    }

    /// Takes the first message out, or waits until there is one. A message without bytes
    /// is passed over, unless such messages are to be delivered. A closed connection
    /// delivers nothing.
    pub fn poll_recv(&mut self, buf: &mut [u8], now_ms: u64) -> (res: Poll<
        Result<usize, KcpError>,
    >)
        requires
            old(self).wf(),
        ensures
            final(self).wf(),
            final(buf)@.len() == old(buf)@.len(),
            receives(old(self)@, old(buf)@, now_ms, final(self)@, final(buf)@, res),
            final(self).machine() == old(self).machine_after_recv(old(buf)@.len()),
            final(self).channel() == old(self).channel(),
    {
        if self.closed {
            return Poll::Ready(Ok(0));
        }
        match recv(&mut self.kcp, buf) {
            Ok(n) => {
                if n > 0 || self.allow_recv_empty_packet {
                    self.last_update_ms = now_ms;
                    return Poll::Ready(Ok(n));
                }
            },
            Err(err) => {
                match read_kcp_error(err) {
                    KcpError::RecvQueueEmpty => {},
                    KcpError::ExpectingFragment => {},
                    err => return Poll::Ready(Err(err)),
                }
            },
        }
        self.pending_receiver = true;
        Poll::Pending
    }

    /// Writes out what there is to be written. That fails only if nobody reads the output.
    pub fn flush(&mut self, now_ms: u64) -> (res: Result<(), KcpError>)
        requires
            old(self).wf(),
        ensures
            final(self).wf(),
            final(self)@.link.sent_from(old(self)@.link),
            final(self)@ == (SocketState {
                link: final(self)@.link,
                last_update_ms: if res is Ok {
                    now_ms
                } else {
                    old(self)@.last_update_ms
                },
                ..old(self)@
            }),
            match res {
                Ok(()) => {
                    &&& final(self).machine() == kcp_flush(old(self).machine())
                    &&& kcp_quiet(final(self).machine())
                },
                Err(err) => {
                    &&& refused(old(self).machine(), err)
                    &&& !nothing_to_write(old(self).machine())
                },
            },
            final(self).channel() == old(self).channel(),
    {
        if let Err(err) = flush(&mut self.kcp) {
            return Err(read_kcp_error(err));
        }
        self.last_update_ms = now_ms;
        Ok(())
    }

    /// Tells KCP the time. Returns how long to wait until the next time.
    pub fn update_at(&mut self, now_ms: u64) -> (res: Result<Duration, KcpError>)
        requires
            old(self).wf(),
        ensures
            final(self).wf(),
            updates(*old(self), now_ms, *final(self), res),
            final(self).channel() == old(self).channel(),
    {
        let now: u32 = (now_ms % 0x1_0000_0000) as u32;
        if let Err(err) = update(&mut self.kcp, now) {
            return Err(read_kcp_error(err));
        }
        let next: u64 = next_delay_ms(
            wait_snd(&self.kcp),
            self.update_interval_ms,
            check(&self.kcp, now),
        );
        self.try_wake_pending_sender();
        Ok(Duration::from_millis(next))
    }

    /// Tells KCP the time of the wall clock; `None` if that is set to a time before the
    /// epoch.
    pub fn update(&mut self) -> (res: Option<Result<Duration, KcpError>>)
        requires
            old(self).wf(),
        ensures
            final(self).wf(),
            exists|now: SystemTime| #[trigger]
                wall_reading(now) && match epoch_millis_spec(now) {
                    Some(now_ms) => res is Some && updates(
                        *old(self),
                        now_ms,
                        *final(self),
                        res->0,
                    ),
                    None => res is None && *final(self) == *old(self),
                },
            final(self).channel() == old(self).channel(),
    {
        match now_millis_u64() {
            Some(now_ms) => Some(self.update_at(now_ms)),
            None => None,
        }
    }

    /// Closes the connection and wakes everyone who waits.
    pub fn close(&mut self)
        ensures
            final(self)@ == (SocketState { closed: true, ..old(self)@ }).woken(
                old(self)@.pending_sender,
                old(self)@.pending_receiver,
            ),
            final(self).machine() == old(self).machine(),
            old(self).wf() ==> final(self).wf(),
    {
        self.closed = true;
        if self.pending_sender {
            self.pending_sender = false;
            self.wakes.sender = true;
        }
        if self.pending_receiver {
            self.pending_receiver = false;
            self.wakes.receiver = true;
        }
    }

    /// Is everything sent and acknowledged?
    pub fn can_close(&self) -> (can: bool)
        ensures
            can == (self@.link.wait_snd() == 0),
    {
        wait_snd(&self.kcp) == 0
    }

    /// The conversation number.
    pub fn conv(&self) -> (conv: u32)
        ensures
            conv == self@.link.conv,
    {
        kcp_conv(&self.kcp)
    }

    /// Sets the conversation number.
    pub fn set_conv(&mut self, conv: u32)
        ensures
            final(self)@ == (SocketState {
                link: LinkState { conv, ..old(self)@.link },
                ..old(self)@
            }),
            final(self).machine() == kcp_with_conv(old(self).machine(), conv),
            undisturbed(old(self).machine(), final(self).machine()),
            old(self).wf() ==> final(self).wf(),
    {
        kcp_set_conv(&mut self.kcp, conv);
    }

    /// Is the conversation number taken from the next packet?
    pub fn waiting_conv(&self) -> (waiting: bool)
        ensures
            waiting == self@.link.waiting_conv,
    {
        waiting_conv(&self.kcp)
    }

    /// The size of the first message, or why there is none.
    pub fn peek_size(&self) -> (res: Result<usize, KcpError>)
        ensures
            match peek(self@.link.received) {
                Ok(size) => res is Ok && res->Ok_0 == size,
                Err(err) => res == Err::<usize, KcpError>(err),
            },
    {
        match peeksize(&self.kcp) {
            Ok(size) => Ok(size),
            Err(err) => Err(read_kcp_error(err)),
        }
    }

    /// When something last came in, was read or was written.
    pub fn last_update_ms(&self) -> (last_update_ms: u64)
        ensures
            last_update_ms == self@.last_update_ms,
    {
        self.last_update_ms
    }

    /// Who is to be woken; they are reported once.
    pub fn take_wakes(&mut self) -> (wakes: Wakes)
        ensures
            wakes == old(self)@.wakes,
            final(self)@ == (SocketState {
                wakes: (Wakes { sender: false, receiver: false }),
                ..old(self)@
            }),
            final(self).machine() == old(self).machine(),
            old(self).wf() ==> final(self).wf(),
    {
        let wakes = self.wakes;
        self.wakes = Wakes { sender: false, receiver: false };
        wakes
    }
}

} // verus!
