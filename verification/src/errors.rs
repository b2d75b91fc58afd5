//! The error taxonomy of the client.
use vstd::prelude::*;

verus! {

/// Everything that can go wrong while locating, connecting to, or speaking
/// with the presence service.
#[derive(Clone, Copy, Debug, PartialEq, Eq, Structural)]
pub enum ClientError {
    /// No candidate socket path resolved to an existing entry.
    EndpointNotFound,
    /// A socket connection attempt failed.
    ConnectionRefused,
    /// A broken pipe or connection reset was detected mid-operation; the
    /// connection has been torn down.
    ConnectionLost,
    /// A short frame header, invalid UTF-8, or malformed command payload.
    ProtocolError,
    /// Any other I/O failure.
    IOError,
}

} // verus!
