//! Sessions: connections with a lifetime, and the table of those that a listener keeps.

use crate::error::{ErrorKind, KcpError};
use crate::fec::packet::{marked_parity, payload_of};
use crate::fec::{data_payload, is_parity_packet};
use crate::link::{kcp_with_conv, LinkState};
use crate::segment::{conv_of, kcp_overhead, kcp_overhead_spec};
use crate::skcp::{takes_in, updates, KcpSocket, SocketState, Wakes};
use crate::utils::{as_millis_u64, millis_u64};
use std::time::Duration;
use vstd::prelude::*;

pub mod laws;
pub mod manager;

pub use manager::{fresh_conv, KcpSessionManager};

verus! {

/// The milliseconds after which an update that failed is tried again.
pub const RETRY_MS: u64 = 10;

/// The state of a session.
pub struct SessionState {
    /// The connection.
    pub socket: SocketState,
    /// The session is to end as soon as everything is sent.
    pub closed: bool,
    /// The session ends after this many milliseconds without activity; 0 is never.
    pub expire_ms: u64,
}

/// What the age of a session means for it.
#[derive(Debug, Clone, Copy, PartialEq, Eq, Structural)]
pub enum Lifetime {
    /// It goes on.
    Alive,
    /// It has been idle for too long and is to be closed.
    Idle,
    /// It ends now.
    Over,
}

/// What a datagram is to a client.
#[derive(Debug, Clone, Copy, PartialEq, Eq, Structural)]
pub enum Inbound {
    /// Too short to carry a segment.
    TooShort,
    /// A parity packet, which carries none.
    Parity,
    /// It carries segments of the conversation with this number.
    Segment(u32),
}

/// What `packet` is to a client.
pub open spec fn inbound(packet: Seq<u8>) -> Inbound {
    match payload_of(packet) {
        Some(payload) => if payload.len() < kcp_overhead_spec() {
            Inbound::TooShort
        } else {
            Inbound::Segment(conv_of(payload))
        },
        None => if marked_parity(packet) {
            Inbound::Parity
        } else if packet.len() < kcp_overhead_spec() {
            Inbound::TooShort
        } else {
            Inbound::Segment(conv_of(packet))
        },
    }
}

/// Looks at a datagram that a client received.
pub fn inspect(packet: &[u8]) -> (kind: Inbound)
    ensures
        kind == inbound(packet@),
{
    if let Some(payload) = data_payload(packet) {
        if payload.len() < kcp_overhead() {
            return Inbound::TooShort;
        }
        Inbound::Segment(kcp::get_conv(payload))
    } else if is_parity_packet(packet) {
        Inbound::Parity
    } else {
        if packet.len() < kcp_overhead() {
            return Inbound::TooShort;
        }
        Inbound::Segment(kcp::get_conv(packet))
    }
}

/// How long nothing has happened at time `now_ms`.
pub open spec fn idle_ms(now_ms: u64, last_update_ms: u64) -> int {
    if now_ms > last_update_ms {
        now_ms - last_update_ms
    } else {
        0
    }
}

/// What it means for a session that nothing has happened for `idle` milliseconds: it is
/// closed after `expire_ms`, and over after twice that, where no number larger than 64
/// bits hold counts as twice.
pub open spec fn lifetime_spec(expire_ms: u64, idle: int) -> Lifetime {
    let twice = if 2 * expire_ms <= u64::MAX {
        2 * expire_ms
    } else {
        u64::MAX as int
    };
    if expire_ms == 0 || idle <= expire_ms {
        Lifetime::Alive
    } else if idle > twice {
        Lifetime::Over
    } else {
        Lifetime::Idle
    }
}

/// What it means for a session that nothing has happened since `last_update_ms`.
pub fn lifetime(expire_ms: u64, now_ms: u64, last_update_ms: u64) -> (life: Lifetime)
    ensures
        life == lifetime_spec(expire_ms, idle_ms(now_ms, last_update_ms)),
{
    if expire_ms == 0 {
        return Lifetime::Alive;
    }
    let idle: u64 = now_ms.saturating_sub(last_update_ms);
    if idle <= expire_ms {
        Lifetime::Alive
    } else if idle > expire_ms.saturating_add(expire_ms) {
        Lifetime::Over
    } else {
        Lifetime::Idle
    }
}

/// `delay_ms` after `now_ms`, or the latest time there is.
pub open spec fn later(now_ms: u64, delay_ms: u64) -> u64 {
    if now_ms + delay_ms <= u64::MAX {
        (now_ms + delay_ms) as u64
    } else {
        u64::MAX
    }
}

/// When to update next after an update at `now_ms`; `None` if nobody reads the output
/// any more.
pub open spec fn deadline_spec(now_ms: u64, updated: Result<Duration, KcpError>) -> Option<u64> {
    match updated {
        Ok(delay) => Some(later(now_ms, millis_u64(delay))),
        Err(err) => if err is IoError && err.spec_kind() == ErrorKind::BrokenPipe {
            None
        } else {
            Some(later(now_ms, RETRY_MS))
        },
    }
}

/// When to update next after an update at `now_ms`; `None` if nobody reads the output
/// any more.
pub fn deadline(now_ms: u64, updated: Result<Duration, KcpError>) -> (next: Option<u64>)
    ensures
        next == deadline_spec(now_ms, updated),
{
    match updated {
        Ok(delay) => Some(now_ms.saturating_add(as_millis_u64(&delay))),
        Err(KcpError::IoError(err)) => {
            let err = KcpError::IoError(err);
            if err.kind() == ErrorKind::BrokenPipe {
                None
            } else {
                Some(now_ms.saturating_add(RETRY_MS))
            }
        },
        Err(_) => Some(now_ms.saturating_add(RETRY_MS)),
    }
}

/// A connection with a lifetime.
#[derive(Debug)]
pub struct KcpSession {
    socket: KcpSocket,
    closed: bool,
    session_expire_ms: u64,
}

impl View for KcpSession {
    type V = SessionState;

    closed spec fn view(&self) -> SessionState {
        SessionState {
            socket: self.socket@,
            closed: self.closed,
            expire_ms: self.session_expire_ms,
        }
    }
}

/// `after` and `next` are what becomes of the session `before` when its time comes.
///
/// A closed session with nothing left to send ends, as does one that has been idle for
/// twice its limit, or whose output nobody reads. An idle one is closed. Else KCP is told
/// the time, and `next` is when to do that again.
pub open spec fn drives(
    before: KcpSession,
    now_ms: u64,
    after: KcpSession,
    next: Option<u64>,
) -> bool {
    let idle = idle_ms(now_ms, before@.socket.last_update_ms);
    let life = lifetime_spec(before@.expire_ms, idle);
    if (before@.closed && before@.socket.link.wait_snd() == 0) || life == Lifetime::Over {
        after == before && next is None
    } else {
        &&& after@.closed == (before@.closed || life == Lifetime::Idle)
        &&& after@.expire_ms == before@.expire_ms
        &&& exists|updated: Result<Duration, KcpError>| #[trigger]
            updates(before.connection(), now_ms, after.connection(), updated) && next
                == deadline_spec(now_ms, updated)
    }
}

/// `after` is the connection `before` with the conversation number `conv`, unless it
/// waits for one.
pub open spec fn adopts(before: KcpSocket, conv: u32, after: KcpSocket) -> bool {
    &&& after.wf()
    &&& if before@.link.waiting_conv || before@.link.conv == conv {
        after == before
    } else {
        &&& after@ == SocketState { link: LinkState { conv, ..before@.link }, ..before@ }
        &&& after.machine() == kcp_with_conv(before.machine(), conv)
    }
}

/// `after` and `res` are what becomes of a client's connection `before` when it receives
/// `packet`: one that is too short is dropped, and a segment of another conversation
/// makes that the conversation, because the other side may choose it.
pub open spec fn receives_datagram(
    before: KcpSocket,
    packet: Seq<u8>,
    now_ms: u64,
    after: KcpSocket,
    res: Option<Result<bool, KcpError>>,
) -> bool {
    match inbound(packet) {
        Inbound::TooShort => after == before && res is None,
        Inbound::Parity => res is Some && takes_in(before, packet, now_ms, after, res->0),
        Inbound::Segment(conv) => res is Some && exists|ready: KcpSocket| #[trigger]
            adopts(before, conv, ready) && takes_in(ready, packet, now_ms, after, res->0),
    }
}

impl KcpSession {
    /// The connection.
    pub closed spec fn connection(&self) -> KcpSocket {
        self.socket
    }

    /// The connection is well formed.
    pub open spec fn wf(&self) -> bool {
        self.connection().wf()
    }

    /// What the session shows of its connection.
    pub proof fn lemma_connection(&self)
        ensures
            self.connection()@ == self@.socket,
    {
    }

    /// A session on `socket`. Only one that reports its end can expire.
    pub fn new(
        socket: KcpSocket,
        session_expire: Option<Duration>,
        reports_end: bool,
    ) -> (session: KcpSession)
        ensures
            session.connection() == socket,
            session@ == (SessionState {
                socket: socket@,
                closed: false,
                expire_ms: match session_expire {
                    Some(expire) if reports_end => millis_u64(expire),
                    _ => 0,
                },
            }),
    {
        let session_expire_ms: u64 = match session_expire {
            Some(expire) => if reports_end {
                as_millis_u64(&expire)
            } else {
                0
            },
            None => 0,
        };
        KcpSession { socket, closed: false, session_expire_ms }
    }

    /// The connection.
    pub fn kcp_socket(&self) -> (socket: &KcpSocket)
        ensures
            *socket == self.connection(),
            socket@ == self@.socket,
    {
        &self.socket
    }

    /// The connection, to be worked with.
    pub fn lock_socket(&mut self) -> (socket: &mut KcpSocket)
        ensures
            *socket == old(self).connection(),
            socket@ == old(self)@.socket,
            final(self).connection() == *final(socket),
            final(self)@ == (SessionState { socket: final(socket)@, ..old(self)@ }),
    {
        &mut self.socket
    }

    /// Ends the session as soon as everything is sent.
    pub fn close(&mut self)
        ensures
            final(self).connection() == old(self).connection(),
            final(self)@ == (SessionState { closed: true, ..old(self)@ }),
    {
        self.closed = true;
    }

    /// Is the session closed?
    pub fn is_closed(&self) -> (closed: bool)
        ensures
            closed == self@.closed,
    {
        self.closed
    }

    /// Takes a datagram that the listener passed on.
    pub fn input(&mut self, buf: &[u8], now_ms: u64) -> (res: Result<bool, KcpError>)
        requires
            old(self).wf(),
        ensures
            final(self).wf(),
            takes_in(old(self).connection(), buf@, now_ms, final(self).connection(), res),
            final(self)@ == (SessionState { socket: final(self).connection()@, ..old(self)@ }),
    {
        self.socket.input(buf, now_ms)
    }

    /// Takes a datagram that a client received; `None` if it is dropped.
    pub fn client_input(&mut self, packet: &[u8], now_ms: u64) -> (res: Option<
        Result<bool, KcpError>,
    >)
        requires
            old(self).wf(),
        ensures
            final(self).wf(),
            receives_datagram(
                old(self).connection(),
                packet@,
                now_ms,
                final(self).connection(),
                res,
            ),
            final(self)@ == (SessionState { socket: final(self).connection()@, ..old(self)@ }),
    {
        match inspect(packet) {
            Inbound::TooShort => None,
            Inbound::Parity => Some(self.socket.input(packet, now_ms)),
            Inbound::Segment(conv) => {
                if !self.socket.waiting_conv() && self.socket.conv() != conv {
                    self.socket.set_conv(conv);
                }
                assert(adopts(old(self).connection(), conv, self.socket));
                Some(self.socket.input(packet, now_ms))
            },
        }
    }

    /// The conversation number.
    pub fn conv(&self) -> (conv: u32)
        ensures
            conv == self@.socket.link.conv,
    {
        self.socket.conv()
    }

    /// Who is to be woken; they are reported once.
    pub fn take_wakes(&mut self) -> (wakes: Wakes)
        requires
            old(self).wf(),
        ensures
            final(self).wf(),
            wakes == old(self)@.socket.wakes,
            final(self)@ == (SessionState {
                socket: SocketState {
                    wakes: (Wakes { sender: false, receiver: false }),
                    ..old(self)@.socket
                },
                ..old(self)@
            }),
            final(self).connection().machine() == old(self).connection().machine(),
    {
        self.socket.take_wakes()
    }

    /// Drives the session when its time has come. Returns when that is the next time;
    /// with `None` the session is over and shut down.
    pub fn poll_scheduler_tick(&mut self, now_ms: u64) -> (next: Option<u64>)
        requires
            old(self).wf(),
        ensures
            final(self).wf(),
            exists|driven: KcpSession| #[trigger]
                drives(*old(self), now_ms, driven, next) && match next {
                    Some(_) => *final(self) == driven,
                    None => {
                        &&& final(self)@ == driven@.finalized()
                        &&& final(self).connection().machine() == driven.connection().machine()
                    },
                },
            final(self).connection().channel() == old(self).connection().channel(),
    {
        match self.drive_update(now_ms) {
            Some(next) => Some(next),
            None => {
                let ghost driven = *self;
                self.finalize();
                assert(drives(*old(self), now_ms, driven, None));
                None
            },
        }
    }

    /// Tells KCP the time, unless the session is over.
    pub fn drive_update(&mut self, now_ms: u64) -> (next: Option<u64>)
        requires
            old(self).wf(),
        ensures
            final(self).wf(),
            drives(*old(self), now_ms, *final(self), next),
            final(self).connection().channel() == old(self).connection().channel(),
    {
        if self.closed && self.socket.can_close() {
            return None;
        }
        match lifetime(self.session_expire_ms, now_ms, self.socket.last_update_ms()) {
            Lifetime::Alive => {},
            Lifetime::Over => return None,
            Lifetime::Idle => {
                self.closed = true;
            },
        }
        let updated = self.socket.update_at(now_ms);
        assert(updates(old(self).connection(), now_ms, self.connection(), updated));
        deadline(now_ms, updated)
    }

    /// Shuts the session down: whoever waits for it is woken and finds it closed.
    pub fn finalize(&mut self)
        ensures
            old(self).wf() ==> final(self).wf(),
            final(self)@ == old(self)@.finalized(),
            final(self).connection().machine() == old(self).connection().machine(),
    {
        self.socket.close();
        self.closed = true;
    }
}

impl SessionState {
    /// The state after the session was shut down.
    pub open spec fn finalized(self) -> SessionState {
        SessionState {
            socket: (SocketState { closed: true, ..self.socket }).woken(
                self.socket.pending_sender,
                self.socket.pending_receiver,
            ),
            closed: true,
            ..self
        }
    }
}

} // verus!
