//! What kind of failure an error is.

use crate::error::{io_error_kind, ErrorKind, FecError, KcpError};
use vstd::prelude::*;

verus! {

/// A failure of the output has the kind of the I/O error; a configuration, a payload or a
/// packet that is not acceptable is invalid input, and so are shard counts; shards that
/// the codec rejects are invalid data; and what KCP says of itself is none of these.
pub proof fn law_kinds_of_failures(err: KcpError)
    ensures
        match err {
            KcpError::IoError(io) => err.spec_kind() == io_error_kind(io),
            KcpError::Config(_) => err.spec_kind() == ErrorKind::InvalidInput,
            KcpError::Fec(FecError::Codec(_)) => err.spec_kind() == ErrorKind::InvalidData,
            KcpError::Fec(_) => err.spec_kind() == ErrorKind::InvalidInput,
            _ => err.spec_kind() == ErrorKind::Other,
        },
{
}

} // verus!
