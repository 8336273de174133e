use vstd::prelude::*;

verus! {

/// Why a connection was torn down.
#[derive(Debug, Clone, Copy, PartialEq, Eq, Structural)]
pub enum ProxyError {
    /// A version, command, address type or length field was not acceptable.
    ProtocolViolation,
    /// The credentials did not match the configured pair.
    AuthFailure,
    /// A domain name was not valid UTF-8.
    EncodingError,
    /// The outbound dial did not finish within its bound.
    Timeout,
    /// A read, write or connect failed.
    IoError,
}

} // verus!
