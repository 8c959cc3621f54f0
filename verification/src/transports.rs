//! Transport selection for protocol connections. The transports
//! themselves perform network and process I/O and live outside the
//! verified core; the type here names which one a connection uses.

use vstd::prelude::*;

verus! {

/// The kind of transport a protocol connection runs over.
#[derive(Clone, Copy, PartialEq, Eq, Structural, Debug)]
pub enum TransportType {
    /// Standard I/O transport (local process).
    Stdio,
    /// HTTP transport.
    Http,
    /// Streamable HTTP transport.
    StreamableHttp,
    /// Server-sent-events transport.
    Sse,
}

impl TransportType {
    /// The transport's wire name.
    pub fn as_str(&self) -> (r: &'static str)
        ensures
            *self == TransportType::Stdio ==> r@ == "stdio"@,
            *self == TransportType::Http ==> r@ == "http"@,
            *self == TransportType::StreamableHttp ==> r@ == "streamable-http"@,
            *self == TransportType::Sse ==> r@ == "sse"@,
    {
        match self {
            TransportType::Stdio => "stdio",
            TransportType::Http => "http",
            TransportType::StreamableHttp => "streamable-http",
            TransportType::Sse => "sse",
        }
    }
}

} // verus!
