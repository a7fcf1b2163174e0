//! Error taxonomy of the client.
//!
//! Every failure a caller can observe is one of these typed values.  Errors
//! reported by the remote server for a single request (`Server`) do not
//! affect the connection state; transport and protocol failures drive the
//! connection state machine into its reconnect path and fail every pending
//! request with `NotConnected`.

use vstd::prelude::*;

verus! {

/// A malformed frame, header or body observed while decoding.
#[derive(Debug, Clone, PartialEq, Eq)]
pub enum ProtocolError {
    /// The input ended before a complete value was read.
    Truncated,
    /// A byte sequence that is not a well-formed value of the expected shape.
    Malformed,
    /// A response carried a correlation id no pending request is registered under.
    UnexpectedSync,
}

/// Everything a request can fail with.
#[derive(Debug, Clone, PartialEq, Eq)]
pub enum Error {
    /// Socket-level I/O failure.
    Transport,
    /// Malformed frame, header or body.
    Protocol(ProtocolError),
    /// Well-formed application-level error returned by the server:
    /// a numeric code and a message.
    Server(u32, Vec<u8>),
    /// A caller-specified deadline elapsed.
    Timeout,
    /// The request was issued, or was still pending, while the connection
    /// was in a terminal `error` or `closed` state.
    NotConnected,
    /// A space or index name stayed unknown after a schema refresh.
    Schema,
}

impl Error {
    /// Short label of the variant, for callers that log failures.
    pub fn kind_name(&self) -> (r: &'static str)
        ensures
            self is Transport ==> r@ == "transport"@,
            self is Protocol ==> r@ == "protocol"@,
            self is Server ==> r@ == "server"@,
            self is Timeout ==> r@ == "timeout"@,
            self is NotConnected ==> r@ == "not connected"@,
            self is Schema ==> r@ == "schema"@,
    {
        match self {
            Error::Transport => "transport",
            Error::Protocol(_) => "protocol",
            Error::Server(_, _) => "server",
            Error::Timeout => "timeout",
            Error::NotConnected => "not connected",
            Error::Schema => "schema",
        }
    }
}

} // verus!
