use vstd::prelude::*;

verus! {

/// Terminal failures of one proxied exchange. Errors on one exchange never
/// propagate to other sessions; none of them is fatal to the process.
#[derive(Clone, Copy, Debug, PartialEq, Eq, Structural)]
pub enum ProxyError {
    /// The client sent bytes that do not form a valid request head.
    MalformedRequest,
    /// The client (or its transport) went away mid-exchange.
    ConnectionClosed,
    /// No bytes arrived within the configured idle window.
    Timeout,
    /// The policy could not name an upstream for this request.
    NoUpstreamAvailable,
    /// Dialing or using the chosen upstream failed, retry included.
    UpstreamUnreachable,
    /// The TLS handshake with the upstream failed identity verification.
    UpstreamTlsError,
}

impl ProxyError {
    /// The status code of the best-effort error response sent to the client
    /// when the exchange fails before any response bytes went out.
    pub open spec fn spec_status_code(self) -> u16 {
        match self {
            ProxyError::MalformedRequest => 400,
            ProxyError::ConnectionClosed => 499,
            ProxyError::Timeout => 408,
            ProxyError::NoUpstreamAvailable => 502,
            ProxyError::UpstreamUnreachable => 502,
            ProxyError::UpstreamTlsError => 502,
        }
    }

    pub fn status_code(&self) -> (s: u16)
        ensures
            s == self.spec_status_code(),
    {
        match self {
            ProxyError::MalformedRequest => 400,
            ProxyError::ConnectionClosed => 499,
            ProxyError::Timeout => 408,
            ProxyError::NoUpstreamAvailable => 502,
            ProxyError::UpstreamUnreachable => 502,
            ProxyError::UpstreamTlsError => 502,
        }
    }

    /// Whether the failure happened on the client side of the exchange.
    pub open spec fn spec_is_client_side(self) -> bool {
        match self {
            ProxyError::MalformedRequest => true,
            ProxyError::ConnectionClosed => true,
            ProxyError::Timeout => true,
            ProxyError::NoUpstreamAvailable => false,
            ProxyError::UpstreamUnreachable => false,
            ProxyError::UpstreamTlsError => false,
        }
    }

    pub fn is_client_side(&self) -> (r: bool)
        ensures
            r == self.spec_is_client_side(),
    {
        matches!(self, ProxyError::MalformedRequest | ProxyError::ConnectionClosed | ProxyError::Timeout)
    }
}

} // verus!
