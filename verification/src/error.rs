//! The errors of the library.

use kcp::Error;
use vstd::prelude::*;

pub mod laws;

verus! {

/// What kind of failure an error stands for.
#[derive(Debug, Clone, Copy, PartialEq, Eq, Structural)]
pub enum ErrorKind {
    /// A parameter or a packet is not acceptable.
    InvalidInput,
    /// Shards that cannot be decoded.
    InvalidData,
    /// The other end of a channel or a session is gone.
    BrokenPipe,
    /// Anything else.
    Other,
}

/// The error type of `reed_solomon_erasure`, carried through unread.
#[verifier::external_type_specification]
#[verifier::external_body]
pub struct ExCodecError(reed_solomon_erasure::Error);

/// What is wrong with a configuration.
#[derive(Debug, Clone, Copy, PartialEq, Eq, Structural)]
pub enum ConfigError {
    /// Only one of the shard counts is zero, or there are more than 256 shards in all.
    InvalidShards,
    /// FEC needs more bytes for its header than a packet has.
    MtuTooSmallForFec,
    /// KCP is left with packets smaller than it works with.
    InvalidMtu,
}

impl ConfigError {
    /// The kind of this error.
    pub fn kind(&self) -> (kind: ErrorKind)
        ensures
            kind == ErrorKind::InvalidInput,
    {
        ErrorKind::InvalidInput
    }
}

/// Why a forward error correction step failed.
#[derive(Debug)]
pub enum FecError {
    /// A shard count is zero, or there are more than 256 shards in all.
    InvalidShards,
    /// The payload does not fit the 16-bit size field.
    PayloadTooLarge,
    /// The packet ends before the header does.
    PacketTooShort,
    /// The erasure codec rejected the shards.
    Codec(reed_solomon_erasure::Error),
}

impl FecError {
    /// The kind of this error.
    pub open spec fn spec_kind(&self) -> ErrorKind {
        match self {
            FecError::Codec(_) => ErrorKind::InvalidData,
            _ => ErrorKind::InvalidInput,
        }
    }

    /// The kind of this error.
    pub fn kind(&self) -> (kind: ErrorKind)
        ensures
            kind == self.spec_kind(),
    {
        match self {
            FecError::Codec(_) => ErrorKind::InvalidData,
            _ => ErrorKind::InvalidInput,
        }
    }
}

/// The error type of std's I/O, carried through unread.
#[verifier::external_type_specification]
#[verifier::external_body]
pub struct ExIoError(std::io::Error);

/// The error type of `kcp`, to be read with `read_kcp_error`.
#[verifier::external_type_specification]
#[verifier::external_body]
pub struct ExKcpError(kcp::Error);

/// The kind of an I/O error.
pub uninterp spec fn io_error_kind(err: std::io::Error) -> ErrorKind;

/// `io::Error::kind`, with the kinds that the library does not tell apart taken
/// together.
#[verifier::external_body]
pub(crate) fn io_kind(err: &std::io::Error) -> (kind: ErrorKind)
    ensures
        kind == io_error_kind(*err),
{
    match err.kind() {
        std::io::ErrorKind::InvalidInput => ErrorKind::InvalidInput,
        std::io::ErrorKind::InvalidData => ErrorKind::InvalidData,
        std::io::ErrorKind::BrokenPipe => ErrorKind::BrokenPipe,
        _ => ErrorKind::Other,
    }
}

/// `io::Error::new` with the kind `BrokenPipe`: an error of that kind.
#[verifier::external_body]
pub(crate) fn broken_pipe(message: &str) -> (err: std::io::Error)
    ensures
        io_error_kind(err) == ErrorKind::BrokenPipe,
{
    std::io::Error::new(std::io::ErrorKind::BrokenPipe, message)
}

/// Why a session operation failed.
#[derive(Debug)]
pub enum KcpError {
    /// A packet of another conversation: the expected number and the found one.
    ConvInconsistent(u32, u32),
    /// A packet size that KCP does not work with.
    InvalidMtu(usize),
    /// A packet that is shorter than a segment header.
    InvalidSegmentSize(usize),
    /// A segment whose size field and whose data disagree.
    InvalidSegmentDataSize(usize, usize),
    /// The output failed.
    IoError(std::io::Error),
    /// KCP has not been updated yet.
    NeedUpdate,
    /// There is no message.
    RecvQueueEmpty,
    /// The next message has not come in completely.
    ExpectingFragment,
    /// A segment with an unknown command.
    UnsupportedCmd(u8),
    /// The message has too many fragments.
    UserBufTooBig,
    /// The message does not fit the buffer.
    UserBufTooSmall,
    /// The configuration is not usable.
    Config(ConfigError),
    /// Forward error correction failed.
    Fec(FecError),
}

impl KcpError {
    /// The kind of this error.
    pub open spec fn spec_kind(&self) -> ErrorKind {
        match self {
            KcpError::IoError(err) => io_error_kind(*err),
            KcpError::Config(_) => ErrorKind::InvalidInput,
            KcpError::Fec(err) => err.spec_kind(),
            _ => ErrorKind::Other,
        }
    }

    /// The kind of this error.
    pub fn kind(&self) -> (kind: ErrorKind)
        ensures
            kind == self.spec_kind(),
    {
        match self {
            KcpError::IoError(err) => io_kind(err),
            KcpError::Config(err) => err.kind(),
            KcpError::Fec(err) => err.kind(),
            _ => ErrorKind::Other,
        }
    }
}

/// What an error of `kcp` says.
pub uninterp spec fn kcp_error(err: kcp::Error) -> KcpError;

/// Reads an error of `kcp`: the variant of the same name with the same fields.
#[verifier::external_body]
pub(crate) fn read_kcp_error(err: kcp::Error) -> (res: KcpError)
    ensures
        res == kcp_error(err),
{
    match err {
        Error::ConvInconsistent(expected, found) => KcpError::ConvInconsistent(expected, found),
        Error::InvalidMtu(mtu) => KcpError::InvalidMtu(mtu),
        Error::InvalidSegmentSize(size) => KcpError::InvalidSegmentSize(size),
        Error::InvalidSegmentDataSize(len, left) => KcpError::InvalidSegmentDataSize(len, left),
        Error::IoError(err) => KcpError::IoError(err),
        Error::NeedUpdate => KcpError::NeedUpdate,
        Error::RecvQueueEmpty => KcpError::RecvQueueEmpty,
        Error::ExpectingFragment => KcpError::ExpectingFragment,
        Error::UnsupportedCmd(cmd) => KcpError::UnsupportedCmd(cmd),
        Error::UserBufTooBig => KcpError::UserBufTooBig,
        Error::UserBufTooSmall => KcpError::UserBufTooSmall,
    }
}

} // verus!
