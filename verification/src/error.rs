use vstd::prelude::*;

verus! {

/// The error kinds a proxy run can produce. `BindError` is fatal at
/// startup; every other kind is contained to a single connection.
#[derive(Clone, Copy, Debug, PartialEq, Eq, Structural)]
pub enum ProxyError {
    /// The local listening address could not be bound.
    BindError,
    /// The client sent nothing within the initial read window.
    ReadTimeout,
    /// The request line could not be parsed.
    MalformedRequest,
    /// The request was empty.
    EmptyRequest,
    /// The upstream proxy could not be reached.
    UpstreamUnreachable,
    /// The upstream proxy closed the connection before replying.
    UpstreamClosed,
    /// The upstream proxy rejected the CONNECT request.
    UpstreamRejected,
    /// Reading the upstream response failed.
    UpstreamReadError,
    /// Writing back to the client failed.
    ClientWriteError,
}

} // verus!
