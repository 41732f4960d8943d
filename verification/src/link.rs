//! The KCP protocol machine, from `kcp`.
//!
//! KCP cuts messages into fragments, sends them until they are acknowledged, and puts
//! what comes in back together. What is stated here of its calls is what they do to
//! the parts of its state that decide what a session does; when a segment is sent or
//! resent is left to KCP.
//!
//! KCP counts modulo 2^32 for segment numbers and times and modulo 256 for fragment
//! numbers. Built with overflow checks its arithmetic traps where it would wrap.

use crate::error::{broken_pipe, io_error_kind, kcp_error, ErrorKind, KcpError};
use crate::wire::le32_at;
use kcp::Kcp;
use tokio::sync::mpsc::error::TrySendError;
use tokio::sync::mpsc::Sender;
use vstd::prelude::*;

pub mod laws;

verus! {

/// A channel into which packets are put, carried through unread.
#[verifier::external_type_specification]
#[verifier::external_body]
#[verifier::reject_recursive_types(T)]
pub struct ExSender<T>(Sender<T>);

/// A KCP machine.
#[verifier::external_type_specification]
#[verifier::external_body]
#[verifier::reject_recursive_types(Output)]
pub struct ExKcp<Output>(Kcp<Output>);

/// What became of a packet that was put into the output channel.
#[derive(Debug, Clone, Copy, PartialEq, Eq, Structural)]
pub enum Posted {
    /// It is in the channel.
    Sent,
    /// The channel was full; the packet is dropped.
    Full,
    /// Nobody reads the channel any more.
    Closed,
}

/// `posted` came of trying to put `packet` into `channel`. Which way it goes depends on
/// the other end of the channel: this tells what was tried, and nothing of the outcome.
pub uninterp spec fn tried_to_post(
    channel: Sender<Vec<u8>>,
    packet: Seq<u8>,
    posted: Posted,
) -> bool;

/// `Sender::try_send`. Which way it goes depends on the other end of the channel, and
/// nothing is claimed of it but that it was tried.
#[verifier::external_body]
fn try_post(post_tx: &Sender<Vec<u8>>, packet: Vec<u8>) -> (posted: Posted)
    ensures
        tried_to_post(*post_tx, packet@, posted),
{
    match post_tx.try_send(packet) {
        Ok(()) => Posted::Sent,
        Err(TrySendError::Full(_)) => Posted::Full,
        Err(TrySendError::Closed(_)) => Posted::Closed,
    }
}

/// `res` is what writing a packet of `len` bytes returns.
pub open spec fn reports_post(posted: Posted, len: nat, res: std::io::Result<usize>) -> bool {
    match res {
        Ok(n) => posted != Posted::Closed && n == len,
        Err(err) => posted == Posted::Closed && io_error_kind(err) == ErrorKind::BrokenPipe,
    }
}

/// What writing a packet of `len` bytes returns: a packet that the channel has no
/// room for counts as written, and only a closed channel is an error.
pub fn written(posted: Posted, len: usize) -> (res: std::io::Result<usize>)
    ensures
        reports_post(posted, len as nat, res),
{
    match posted {
        Posted::Sent => Ok(len),
        Posted::Full => Ok(len),
        Posted::Closed => Err(broken_pipe("UDP output task closed")),
    }
}

/// Where KCP writes its packets: a channel to the task that sends them.
#[derive(Debug)]
pub struct UdpOutput {
    post_tx: Sender<Vec<u8>>,
}

impl UdpOutput {
    /// An output that puts packets into `post_tx`.
    pub fn new(post_tx: Sender<Vec<u8>>) -> (output: UdpOutput)
        ensures
            output.channel() == post_tx,
    {
        UdpOutput { post_tx }
    }

    /// The channel that packets are put into.
    pub closed spec fn channel(self) -> Sender<Vec<u8>> {
        self.post_tx
    }
}

impl std::io::Write for UdpOutput {
    fn write(&mut self, buf: &[u8]) -> (res: std::io::Result<usize>)
        ensures
            *final(self) == *old(self),
            exists|posted: Posted| #[trigger]
                tried_to_post(old(self).channel(), buf@, posted) && reports_post(
                    posted,
                    buf@.len(),
                    res,
                ),
    {
        let packet = crate::wire::tail_copy(buf, 0);
        assert(packet@ =~= buf@);
        let posted = try_post(&self.post_tx, packet);
        assert(tried_to_post(old(self).channel(), buf@, posted));
        written(posted, buf.len())
    }

    fn flush(&mut self) -> (res: std::io::Result<()>)
        ensures
            *final(self) == *old(self),
            res is Ok,
    {
        Ok(())
    }
}

/// A fragment of a message: how many fragments of the message follow it, and its
/// bytes.
pub type Fragment = (u8, Seq<u8>);

/// The parts of KCP's state that decide what a session does.
pub struct LinkState {
    /// The conversation number.
    pub conv: u32,
    /// The conversation number is taken from the next packet.
    pub waiting_conv: bool,
    /// KCP has been updated at least once.
    pub updated: bool,
    /// Bytes are a stream: what is sent may be appended to the fragment before.
    pub stream: bool,
    /// The most bytes that a fragment carries.
    pub mss: nat,
    /// Short resend times.
    pub nodelay: bool,
    /// Time between updates, in milliseconds.
    pub interval: nat,
    /// ACKs that overtake a segment before it is resent; 0 is never.
    pub fast_resend: nat,
    /// No congestion control.
    pub nocwnd: bool,
    /// Send window, in segments.
    pub snd_wnd: u16,
    /// Receive window, in segments.
    pub rcv_wnd: u16,
    /// The other side's receive window, in segments.
    pub rmt_wnd: u16,
    /// Segments that are sent and not acknowledged.
    pub in_flight: nat,
    /// Fragments that are not sent yet.
    pub queue: Seq<Fragment>,
    /// Fragments that have come in and can be read.
    pub received: Seq<Fragment>,
}

/// Fragments at this number and above are too many for one message.
pub const KCP_MAX_FRAGMENTS: usize = 128;

/// The most fragments that KCP takes in one go.
pub const KCP_MOST_FRAGMENTS: usize = 127;

/// The smallest receive window that KCP sets.
pub const KCP_MIN_RCV_WND: u16 = 128;

/// The bytes of these fragments, one after the other.
pub open spec fn joined(fragments: Seq<Fragment>) -> Seq<u8>
    decreases fragments.len(),
{
    if fragments.len() == 0 {
        Seq::empty()
    } else {
        joined(fragments.drop_last()) + fragments.last().1
    }
}

/// How many fragments the first message has: up to the one that no other follows, or
/// all.
pub open spec fn head_count(fragments: Seq<Fragment>) -> nat
    decreases fragments.len(),
{
    if fragments.len() == 0 {
        0
    } else if fragments[0].0 == 0 {
        1
    } else {
        1 + head_count(fragments.drop_first())
    }
}

/// The bytes of the first message.
pub open spec fn head_message(fragments: Seq<Fragment>) -> Seq<u8> {
    joined(fragments.take(head_count(fragments) as int))
}

/// The size of the first message, or why there is none to be read.
pub open spec fn peek(fragments: Seq<Fragment>) -> Result<nat, KcpError> {
    if fragments.len() == 0 {
        Err(KcpError::RecvQueueEmpty)
    } else if fragments.len() < (fragments[0].0 + 1) % 256 {
        Err(KcpError::ExpectingFragment)
    } else {
        Ok(head_message(fragments).len())
    }
}

/// How many fragments `len` bytes are cut into.
pub open spec fn fragment_count(len: int, mss: int) -> int {
    if len <= mss {
        1
    } else {
        (len + mss - 1) / mss
    }
}

/// The fragments that `data` is cut into. In stream mode they do not tell which of
/// them follow.
pub open spec fn fragments_of(data: Seq<u8>, mss: int, stream: bool) -> Seq<Fragment> {
    let count = fragment_count(data.len() as int, mss);
    Seq::new(
        count as nat,
        |i: int|
            (
                if stream {
                    0u8
                } else {
                    (count - i - 1) as u8
                },
                data.subrange(
                    i * mss,
                    if (i + 1) * mss < data.len() {
                        (i + 1) * mss
                    } else {
                        data.len() as int
                    },
                ),
            ),
    )
}

impl LinkState {
    /// A new machine.
    pub open spec fn start(conv: u32, stream: bool) -> LinkState {
        LinkState {
            conv,
            waiting_conv: false,
            updated: false,
            stream,
            mss: 1376,
            nodelay: false,
            interval: 100,
            fast_resend: 0,
            nocwnd: false,
            snd_wnd: 32,
            rcv_wnd: 128,
            rmt_wnd: 128,
            in_flight: 0,
            queue: Seq::empty(),
            received: Seq::empty(),
        }
    }

    /// Segments that are waiting to be sent or acknowledged.
    pub open spec fn wait_snd(self) -> nat {
        self.in_flight + self.queue.len()
    }

    /// Another message may be handed in: both windows have room, and the conversation
    /// number is known.
    pub open spec fn ready_to_send(self) -> bool {
        !self.windows_full() && !self.waiting_conv
    }

    /// In stream mode, the bytes for which the last unsent fragment has room.
    pub open spec fn tail_room(self) -> int {
        if self.stream && self.queue.len() > 0 && self.queue.last().1.len() < self.mss {
            self.mss - self.queue.last().1.len()
        } else {
            0
        }
    }

    /// The state with `data` appended to the last unsent fragment.
    pub open spec fn extended(self, data: Seq<u8>) -> LinkState {
        if self.tail_room() > 0 {
            LinkState {
                queue: self.queue.update(
                    self.queue.len() - 1,
                    (0u8, self.queue.last().1 + data),
                ),
                ..self
            }
        } else {
            self
        }
    }

    /// The state and the result after `data` was handed in. In stream mode the last
    /// unsent fragment is filled up first, and stays filled even if the rest turns out
    /// to have too many fragments.
    pub open spec fn send(self, data: Seq<u8>) -> (LinkState, Result<nat, KcpError>) {
        let taken = if data.len() < self.tail_room() {
            data.len() as int
        } else {
            self.tail_room()
        };
        let rest = data.skip(taken);
        let filled = self.extended(data.take(taken));
        if self.stream && rest.len() == 0 {
            (filled, Ok(data.len()))
        } else if fragment_count(rest.len() as int, self.mss as int) >= KCP_MAX_FRAGMENTS {
            (filled, Err(KcpError::UserBufTooBig))
        } else {
            (
                LinkState {
                    queue: filled.queue + fragments_of(rest, self.mss as int, self.stream),
                    ..filled
                },
                Ok(data.len()),
            )
        }
    }

    /// The most bytes that KCP takes in one go whatever is queued.
    pub open spec fn one_go(self) -> int {
        KCP_MOST_FRAGMENTS * self.mss
    }

    /// The state after `data` was handed in, in two goes if it is more than KCP takes in one.
    pub open spec fn send_all(self, data: Seq<u8>) -> LinkState {
        if data.len() > self.one_go() {
            self.send(data.take(self.one_go())).0.send(data.skip(self.one_go())).0
        } else {
            self.send(data).0
        }
    }

    /// `self` is `before` with some of the unsent fragments sent.
    pub open spec fn sent_from(self, before: LinkState) -> bool {
        exists|n: int|
            0 <= n <= before.queue.len() && self == #[trigger] before.with_sent(n)
    }

    /// The state with the first `n` unsent fragments sent.
    pub open spec fn with_sent(self, n: int) -> LinkState {
        LinkState {
            in_flight: (self.in_flight + n) as nat,
            queue: self.queue.skip(n),
            ..self
        }
    }

    /// `self` is `before` with the first message taken out; more may have become
    /// readable behind the others.
    pub open spec fn took_head(self, before: LinkState) -> bool {
        &&& self == LinkState { received: self.received, ..before }
        &&& before.received.skip(head_count(before.received) as int).is_prefix_of(self.received)
    }

    /// The windows have no room for another message.
    pub open spec fn windows_full(self) -> bool {
        self.wait_snd() >= self.snd_wnd || self.wait_snd() >= self.rmt_wnd
    }

    /// `self` is `before` after some packet: segments may have been acknowledged,
    /// fragments may have come in, the other side may have told its window, and a
    /// conversation number that was waited for may have been found.
    pub open spec fn follows(self, before: LinkState) -> bool {
        &&& self == LinkState {
            conv: self.conv,
            waiting_conv: self.waiting_conv,
            rmt_wnd: self.rmt_wnd,
            in_flight: self.in_flight,
            received: self.received,
            ..before
        }
        &&& self.in_flight <= before.in_flight
        &&& before.received.is_prefix_of(self.received)
        &&& self.waiting_conv ==> before.waiting_conv
        &&& self.waiting_conv == before.waiting_conv ==> self.conv == before.conv
    }
}

/// What makes no more than `KCP_MOST_FRAGMENTS` fragments is taken.
pub proof fn lemma_message_is_taken(state: LinkState, data: Seq<u8>)
    requires
        state.mss > 0,
        data.len() <= state.one_go(),
    ensures
        state.send(data).1 == Ok::<nat, KcpError>(data.len()),
{
    let mss = state.mss as int;
    let taken = if data.len() < state.tail_room() {
        data.len() as int
    } else {
        state.tail_room()
    };
    let len = data.skip(taken).len() as int;
    if len > mss {
        let count = (len + mss - 1) / mss;
        vstd::arithmetic::div_mod::lemma_fundamental_div_mod(len + mss - 1, mss);
        vstd::arithmetic::div_mod::lemma_mod_bound(len + mss - 1, mss);
        assert(count < 128) by (nonlinear_arith)
            requires
                mss * count <= len + mss - 1,
                len <= 127 * mss,
                mss > 0,
        ;
    }
}

/// What is sent in two goes is sent.
pub proof fn lemma_sent_twice(first: LinkState, second: LinkState, third: LinkState)
    requires
        second.sent_from(first),
        third.sent_from(second),
    ensures
        third.sent_from(first),
{
    let n = choose|n: int|
        0 <= n <= first.queue.len() && second == #[trigger] first.with_sent(n);
    let m = choose|m: int|
        0 <= m <= second.queue.len() && third == #[trigger] second.with_sent(m);
    assert(first.queue.skip(n).skip(m) =~= first.queue.skip(n + m));
    assert(third == first.with_sent(n + m));
}

/// Nothing sent is also a way to send.
pub proof fn lemma_sent_nothing(state: LinkState)
    ensures
        state.sent_from(state),
{
    assert(state.queue.skip(0) =~= state.queue);
    assert(state == state.with_sent(0));
}

/// The parts of a machine's state that decide what a session does.
pub uninterp spec fn link(kcp: Kcp<UdpOutput>) -> LinkState;

/// A machine after a packet, and what it returned for the packet.
pub uninterp spec fn kcp_input(kcp: Kcp<UdpOutput>, packet: Seq<u8>) -> (
    Kcp<UdpOutput>,
    Result<usize, KcpError>,
);

/// A machine after its acknowledgements were flushed.
pub uninterp spec fn kcp_flush_ack(kcp: Kcp<UdpOutput>) -> Kcp<UdpOutput>;

/// A machine after it was flushed.
pub uninterp spec fn kcp_flush(kcp: Kcp<UdpOutput>) -> Kcp<UdpOutput>;

/// A machine after it was told the time.
pub uninterp spec fn kcp_update(kcp: Kcp<UdpOutput>, now: u32) -> Kcp<UdpOutput>;

/// A machine after its conversation number was set.
pub uninterp spec fn kcp_with_conv(kcp: Kcp<UdpOutput>, conv: u32) -> Kcp<UdpOutput>;

/// A machine after `data` was handed in.
pub uninterp spec fn kcp_send(kcp: Kcp<UdpOutput>, data: Seq<u8>) -> Kcp<UdpOutput>;

/// A machine after its first message was taken out.
pub uninterp spec fn kcp_recv(kcp: Kcp<UdpOutput>) -> Kcp<UdpOutput>;

/// No acknowledgement, no window probe and no byte of an unfinished packet waits in the
/// machine to be written.
pub uninterp spec fn kcp_quiet(kcp: Kcp<UdpOutput>) -> bool;

/// The channel that the machine's packets are put into.
pub uninterp spec fn kcp_channel(kcp: Kcp<UdpOutput>) -> Sender<Vec<u8>>;

/// A machine after `data` was handed in, in two goes if it is more than KCP takes in one.
pub open spec fn kcp_send_all(kcp: Kcp<UdpOutput>, data: Seq<u8>) -> Kcp<UdpOutput> {
    let one_go = link(kcp).one_go();
    if data.len() > one_go {
        kcp_send(kcp_send(kcp, data.take(one_go)), data.skip(one_go))
    } else {
        kcp_send(kcp, data)
    }
}

/// There is nothing that the machine could write: it is quiet, no segment waits to be sent
/// or acknowledged, and the other side's window is open, so that there is no need to ask
/// for it.
pub open spec fn nothing_to_write(kcp: Kcp<UdpOutput>) -> bool {
    kcp_quiet(kcp) && link(kcp).wait_snd() == 0 && link(kcp).rmt_wnd > 0
}

/// `after` writes into the same channel as `before`, and is quiet if `before` is.
pub open spec fn undisturbed(before: Kcp<UdpOutput>, after: Kcp<UdpOutput>) -> bool {
    &&& kcp_channel(after) == kcp_channel(before)
    &&& kcp_quiet(before) ==> kcp_quiet(after)
}

/// `err` says that the machine tried to write a packet and that nobody reads its channel
/// any more.
pub open spec fn refused(kcp: Kcp<UdpOutput>, err: KcpError) -> bool {
    &&& err is IoError
    &&& io_error_kind(err->IoError_0) == ErrorKind::BrokenPipe
    &&& exists|packet: Seq<u8>| #[trigger]
        tried_to_post(kcp_channel(kcp), packet, Posted::Closed)
}

/// When a machine wants to be updated next, in milliseconds from `now`.
pub uninterp spec fn kcp_check(kcp: Kcp<UdpOutput>, now: u32) -> u32;

/// `Kcp::new`: a new machine that keeps messages apart. It has nothing to write.
#[verifier::external_body]
pub(crate) fn new_message_kcp(conv: u32, output: UdpOutput) -> (kcp: Kcp<UdpOutput>)
    ensures
        link(kcp) == LinkState::start(conv, false),
        kcp_quiet(kcp),
        kcp_channel(kcp) == output.channel(),
{
    Kcp::new(conv, output)
}

/// `Kcp::new_stream`: a new machine in stream mode. It has nothing to write.
#[verifier::external_body]
pub(crate) fn new_stream_kcp(conv: u32, output: UdpOutput) -> (kcp: Kcp<UdpOutput>)
    ensures
        link(kcp) == LinkState::start(conv, true),
        kcp_quiet(kcp),
        kcp_channel(kcp) == output.channel(),
{
    Kcp::new_stream(conv, output)
}

/// `Kcp::set_mtu`: sets the packet size, of which 24 bytes are header; sizes under 50
/// are rejected. It reserves three packets with a header each, which a size must leave
/// possible.
#[verifier::external_body]
pub(crate) fn set_mtu(kcp: &mut Kcp<UdpOutput>, mtu: usize) -> (res: kcp::KcpResult<()>)
    requires
        (mtu + 24) * 3 <= isize::MAX,
    ensures
        res is Ok <==> mtu >= 50,
        res is Ok ==> link(*final(kcp)) == (LinkState {
            mss: (mtu - 24) as nat,
            ..link(*old(kcp))
        }),
        res is Err ==> kcp_error(res->Err_0) == KcpError::InvalidMtu(mtu),
        res is Err ==> link(*final(kcp)) == link(*old(kcp)),
        undisturbed(*old(kcp), *final(kcp)),
{
    kcp.set_mtu(mtu)
}

/// `interval`, brought into the range that KCP works with.
pub open spec fn clamped_interval(interval: int) -> nat {
    if interval < 10 {
        10
    } else if interval > 5000 {
        5000
    } else {
        interval as nat
    }
}

/// `Kcp::set_nodelay`: sets how eagerly to send and resend; a negative `resend` leaves
/// that number as it is.
#[verifier::external_body]
pub(crate) fn set_nodelay(
    kcp: &mut Kcp<UdpOutput>,
    nodelay: bool,
    interval: i32,
    resend: i32,
    nc: bool,
)
    ensures
        link(*final(kcp)) == (LinkState {
            nodelay,
            interval: clamped_interval(interval as int),
            fast_resend: if resend >= 0 {
                resend as nat
            } else {
                link(*old(kcp)).fast_resend
            },
            nocwnd: nc,
            ..link(*old(kcp))
        }),
        undisturbed(*old(kcp), *final(kcp)),
{
    kcp.set_nodelay(nodelay, interval, resend, nc)
}

/// `Kcp::set_wndsize`: sets the windows that are not zero; the receive window is at
/// least 128.
#[verifier::external_body]
pub(crate) fn set_wndsize(kcp: &mut Kcp<UdpOutput>, sndwnd: u16, rcvwnd: u16)
    ensures
        link(*final(kcp)) == (LinkState {
            snd_wnd: if sndwnd > 0 {
                sndwnd
            } else {
                link(*old(kcp)).snd_wnd
            },
            rcv_wnd: if rcvwnd == 0 {
                link(*old(kcp)).rcv_wnd
            } else if rcvwnd > KCP_MIN_RCV_WND {
                rcvwnd
            } else {
                KCP_MIN_RCV_WND
            },
            ..link(*old(kcp))
        }),
        undisturbed(*old(kcp), *final(kcp)),
{
    kcp.set_wndsize(sndwnd, rcvwnd)
}

/// `Kcp::input_conv`: the conversation number is to be taken from the next packet.
#[verifier::external_body]
pub(crate) fn input_conv(kcp: &mut Kcp<UdpOutput>)
    ensures
        link(*final(kcp)) == (LinkState { waiting_conv: true, ..link(*old(kcp)) }),
        undisturbed(*old(kcp), *final(kcp)),
{
    kcp.input_conv()
}

/// `Kcp::set_conv`: sets the conversation number. The machine it leaves is named.
#[verifier::external_body]
pub(crate) fn kcp_set_conv(kcp: &mut Kcp<UdpOutput>, conv: u32)
    ensures
        *final(kcp) == kcp_with_conv(*old(kcp), conv),
        link(*final(kcp)) == (LinkState { conv, ..link(*old(kcp)) }),
        undisturbed(*old(kcp), *final(kcp)),
{
    kcp.set_conv(conv)
}

/// `Kcp::conv`: the conversation number.
#[verifier::external_body]
pub(crate) fn kcp_conv(kcp: &Kcp<UdpOutput>) -> (conv: u32)
    ensures
        conv == link(*kcp).conv,
{
    kcp.conv()
}

/// `Kcp::waiting_conv`: is the conversation number to be taken from the next packet?
#[verifier::external_body]
pub(crate) fn waiting_conv(kcp: &Kcp<UdpOutput>) -> (waiting: bool)
    ensures
        waiting == link(*kcp).waiting_conv,
{
    kcp.waiting_conv()
}

/// `Kcp::wait_snd`: the segments that are waiting to be sent or acknowledged.
#[verifier::external_body]
pub(crate) fn wait_snd(kcp: &Kcp<UdpOutput>) -> (count: usize)
    ensures
        count == link(*kcp).wait_snd(),
{
    kcp.wait_snd()
}

/// `Kcp::snd_wnd`: the send window.
#[verifier::external_body]
pub(crate) fn snd_wnd(kcp: &Kcp<UdpOutput>) -> (wnd: u16)
    ensures
        wnd == link(*kcp).snd_wnd,
{
    kcp.snd_wnd()
}

/// `Kcp::rmt_wnd`: the other side's receive window.
#[verifier::external_body]
pub(crate) fn rmt_wnd(kcp: &Kcp<UdpOutput>) -> (wnd: u16)
    ensures
        wnd == link(*kcp).rmt_wnd,
{
    kcp.rmt_wnd()
}

/// `Kcp::mss`: the most bytes that a fragment carries.
#[verifier::external_body]
pub(crate) fn mss(kcp: &Kcp<UdpOutput>) -> (mss: usize)
    ensures
        mss == link(*kcp).mss,
{
    kcp.mss()
}

/// `Kcp::is_stream`: are the bytes a stream?
#[verifier::external_body]
pub(crate) fn is_stream(kcp: &Kcp<UdpOutput>) -> (stream: bool)
    ensures
        stream == link(*kcp).stream,
{
    kcp.is_stream()
}

/// `Kcp::peeksize`: the size of the first message, or why there is none.
#[verifier::external_body]
pub(crate) fn peeksize(kcp: &Kcp<UdpOutput>) -> (res: kcp::KcpResult<usize>)
    ensures
        match res {
            Ok(size) => peek(link(*kcp).received) == Ok::<nat, KcpError>(size as nat),
            Err(err) => peek(link(*kcp).received) == Err::<nat, KcpError>(kcp_error(err)),
        },
{
    kcp.peeksize()
}

/// `Kcp::recv`: takes the first message out and copies it to the front of `buf`. If
/// there is none or it does not fit, nothing changes. Fragments that were held back may
/// become readable behind the others. The machine it leaves depends on the machine alone,
/// and is named.
#[verifier::external_body]
pub(crate) fn recv(kcp: &mut Kcp<UdpOutput>, buf: &mut [u8]) -> (res: kcp::KcpResult<usize>)
    ensures
        match peek(link(*old(kcp)).received) {
            Ok(size) if size <= old(buf)@.len() => {
                &&& res is Ok && res->Ok_0 == size
                &&& final(buf)@ == head_message(link(*old(kcp)).received) + old(buf)@.skip(
                    size as int,
                )
                &&& *final(kcp) == kcp_recv(*old(kcp))
                &&& link(*final(kcp)).took_head(link(*old(kcp)))
            },
            Ok(_) => {
                &&& res is Err && kcp_error(res->Err_0) == KcpError::UserBufTooSmall
                &&& final(buf)@ == old(buf)@
                &&& *final(kcp) == *old(kcp)
            },
            Err(err) => {
                &&& res is Err && kcp_error(res->Err_0) == err
                &&& final(buf)@ == old(buf)@
                &&& *final(kcp) == *old(kcp)
            },
        },
        kcp_channel(*final(kcp)) == kcp_channel(*old(kcp)),
{
    kcp.recv(buf)
}

/// `Kcp::send`: cuts `data` into fragments and queues them, or refuses if there are 128
/// or more. The machine it leaves is named.
#[verifier::external_body]
pub(crate) fn send(kcp: &mut Kcp<UdpOutput>, data: &[u8]) -> (res: kcp::KcpResult<usize>)
    requires
        link(*old(kcp)).mss > 0,
    ensures
        *final(kcp) == kcp_send(*old(kcp), data@),
        link(*final(kcp)) == link(*old(kcp)).send(data@).0,
        undisturbed(*old(kcp), *final(kcp)),
        match res {
            Ok(n) => link(*old(kcp)).send(data@).1 == Ok::<nat, KcpError>(n as nat),
            Err(err) => link(*old(kcp)).send(data@).1 == Err::<nat, KcpError>(kcp_error(err)),
        },
{
    kcp.send(data)
}

/// `Kcp::input`: takes a packet in.
///
/// The outcome depends on the machine and on the packet, and is named. Claimed besides:
/// the packet changes no more than `LinkState::follows` says; a packet shorter than 24
/// bytes is rejected and changes nothing; the number at the start of a packet must be
/// the conversation number, unless that is waited for: then it is taken over.
#[verifier::external_body]
pub(crate) fn input(kcp: &mut Kcp<UdpOutput>, packet: &[u8]) -> (res: kcp::KcpResult<usize>)
    ensures
        *final(kcp) == kcp_input(*old(kcp), packet@).0,
        match res {
            Ok(n) => kcp_input(*old(kcp), packet@).1 == Ok::<usize, KcpError>(n),
            Err(err) => kcp_input(*old(kcp), packet@).1 == Err::<usize, KcpError>(kcp_error(err)),
        },
        input_facts(
            link(*old(kcp)),
            packet@,
            link(*final(kcp)),
            kcp_input(*old(kcp), packet@).1,
        ),
        link(*final(kcp)).follows(link(*old(kcp))),
        kcp_channel(*final(kcp)) == kcp_channel(*old(kcp)),
{
    kcp.input(packet)
}

/// What is known of the outcome of a packet whatever segments it holds.
pub open spec fn input_facts(
    before: LinkState,
    packet: Seq<u8>,
    after: LinkState,
    res: Result<usize, KcpError>,
) -> bool {
    if packet.len() < 24 {
        after == before && res == Err::<usize, KcpError>(
            KcpError::InvalidSegmentSize(packet.len() as usize),
        )
    } else if le32_at(packet, 0) != before.conv && !before.waiting_conv {
        after == before && res == Err::<usize, KcpError>(
            KcpError::ConvInconsistent(before.conv, le32_at(packet, 0) as u32),
        )
    } else if le32_at(packet, 0) != before.conv {
        after.conv == le32_at(packet, 0) && !after.waiting_conv
    } else {
        true
    }
}

/// What is known of a call that writes packets out: it fails only if the machine was
/// never updated, or if the output refuses a packet.
pub open spec fn flush_result(before: Kcp<UdpOutput>, res: kcp::KcpResult<()>) -> bool {
    if link(before).updated {
        res is Err ==> refused(before, kcp_error(res->Err_0))
    } else {
        res is Err && kcp_error(res->Err_0) is NeedUpdate
    }
}

/// `Kcp::flush_ack`: puts the pending acknowledgements into the packet that is being
/// filled, and writes packets that are full.
///
/// If the output takes them, the machine it leaves depends on the machine alone, and is
/// named. Claimed whatever the output does: no part of the state in `LinkState` changes,
/// and it fails only if the machine was never updated or the output refuses a packet; for
/// a quiet machine it writes nothing.
#[verifier::external_body]
pub(crate) fn flush_ack(kcp: &mut Kcp<UdpOutput>) -> (res: kcp::KcpResult<()>)
    ensures
        res is Ok ==> *final(kcp) == kcp_flush_ack(*old(kcp)),
        link(*final(kcp)) == link(*old(kcp)),
        flush_result(*old(kcp), res),
        link(*old(kcp)).updated && kcp_quiet(*old(kcp)) ==> res is Ok,
        undisturbed(*old(kcp), *final(kcp)),
{
    kcp.flush_ack()
}

/// `Kcp::flush`: writes what there is to be written.
///
/// If the output takes it, the machine it leaves depends on the machine alone, and is
/// named. Claimed whatever the output does: unsent fragments may become sent ones, nothing
/// else in `LinkState` changes, and it fails only if the machine was never updated, which
/// changes nothing, or the output refuses a packet. A machine that has nothing to write
/// does not touch the output, and afterwards the machine is quiet.
#[verifier::external_body]
pub(crate) fn flush(kcp: &mut Kcp<UdpOutput>) -> (res: kcp::KcpResult<()>)
    ensures
        res is Ok ==> *final(kcp) == kcp_flush(*old(kcp)),
        link(*final(kcp)).sent_from(link(*old(kcp))),
        !link(*old(kcp)).updated ==> link(*final(kcp)) == link(*old(kcp)),
        flush_result(*old(kcp), res),
        link(*old(kcp)).updated && nothing_to_write(*old(kcp)) ==> res is Ok,
        res is Ok ==> kcp_quiet(*final(kcp)),
        kcp_channel(*final(kcp)) == kcp_channel(*old(kcp)),
{
    kcp.flush()
}

/// `Kcp::update`: tells the machine the time, and flushes if it is time to.
///
/// If the output takes what is written, the machine it leaves depends on the machine and
/// the time alone, and is named. Claimed whatever the output does: the machine is updated,
/// unsent fragments may become sent ones, nothing else in `LinkState` changes, and it fails
/// only if the output refuses a packet. A machine that has nothing to write does not touch
/// the output, nor does one that does not want to be updated yet.
#[verifier::external_body]
pub(crate) fn update(kcp: &mut Kcp<UdpOutput>, now: u32) -> (res: kcp::KcpResult<()>)
    ensures
        res is Ok ==> *final(kcp) == kcp_update(*old(kcp), now),
        link(*final(kcp)).sent_from((LinkState { updated: true, ..link(*old(kcp)) })),
        res is Err ==> refused(*old(kcp), kcp_error(res->Err_0)),
        nothing_to_write(*old(kcp)) ==> res is Ok,
        kcp_check(*old(kcp), now) > 0 ==> res is Ok && link(*final(kcp)) == link(*old(kcp)),
        kcp_channel(*final(kcp)) == kcp_channel(*old(kcp)),
        res is Ok && kcp_quiet(*old(kcp)) ==> kcp_quiet(*final(kcp)),
{
    kcp.update(now)
}

/// `Kcp::check`: when the machine wants to be updated next, in milliseconds from `now`.
/// It depends on the machine's timers and is named; claimed besides: it is not later
/// than the update interval.
#[verifier::external_body]
pub(crate) fn check(kcp: &Kcp<UdpOutput>, now: u32) -> (delay: u32)
    ensures
        delay == kcp_check(*kcp, now),
        delay <= link(*kcp).interval,
{
    kcp.check(now)
}

} // verus!
