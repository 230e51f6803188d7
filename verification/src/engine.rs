use vstd::prelude::*;
use crate::errors::ProxyError;
use crate::http::{clone_request, Request, Response};
use crate::peer::UpstreamPeer;
use crate::policy::ProxyPolicy;

verus! {

/// The phases of one proxied exchange, in pipeline order. Transitions are
/// strictly sequential — no phase is skipped — except that any phase can
/// fail, and a failed upstream attempt may fall back to `ConnectingUpstream`
/// once for a fresh dial.
#[derive(Clone, Copy, Debug, PartialEq, Eq, Structural)]
pub enum ExchangeState {
    ReceivingRequest,
    SelectingUpstream,
    ConnectingUpstream,
    ForwardingRequest,
    ReceivingUpstreamResponse,
    ForwardingResponse,
    Done,
    Failed,
}

/// One exchange run by the proxy engine. The driver performs the socket
/// work and reports each outcome through the method for it; the exchange
/// decides every transition. `conn` is the upstream connection the exchange
/// currently holds; in the terminal states it holds none, because every
/// method that ends the exchange hands the connection back for release or
/// discard.
pub struct Exchange {
    pub state: ExchangeState,
    pub request: Option<Request>,
    pub conn: Option<u64>,
    pub conn_pooled: bool,
    pub retried: bool,
    pub error: Option<ProxyError>,
}

impl Exchange {
    /// Exchange invariant: a request head is on hand from selection through
    /// response forwarding, a connection is held exactly while upstream work
    /// is under way, and an error is recorded exactly when the exchange
    /// failed.
    pub open spec fn wf(self) -> bool {
        &&& (self.state == ExchangeState::SelectingUpstream || self.state
            == ExchangeState::ConnectingUpstream || self.state == ExchangeState::ForwardingRequest
            || self.state == ExchangeState::ReceivingUpstreamResponse || self.state
            == ExchangeState::ForwardingResponse) ==> self.request is Some
        &&& (self.state == ExchangeState::ForwardingRequest || self.state
            == ExchangeState::ReceivingUpstreamResponse || self.state
            == ExchangeState::ForwardingResponse) <==> self.conn is Some
        &&& (self.error is Some <==> self.state == ExchangeState::Failed)
    }

    /// A fresh exchange, about to parse the request off the client.
    pub fn new() -> (ex: Exchange)
        ensures
            ex.wf(),
            ex.state == ExchangeState::ReceivingRequest,
            ex.conn is None && ex.error is None && ex.request is None,
            !ex.retried,
    {
        Exchange {
            state: ExchangeState::ReceivingRequest,
            request: None,
            conn: None,
            conn_pooled: false,
            retried: false,
            error: None,
        }
    }

    /// The request head arrived and parsed: move to upstream selection.
    pub fn on_request(&mut self, req: Request)
        requires
            old(self).wf(),
            old(self).state == ExchangeState::ReceivingRequest,
        ensures
            final(self).wf(),
            final(self).state == ExchangeState::SelectingUpstream,
            final(self).request is Some && final(self).request.unwrap()@ == req@,
            final(self).conn is None && final(self).error is None,
            final(self).retried == old(self).retried,
    {
        self.request = Some(req);
        self.state = ExchangeState::SelectingUpstream;
    }

    /// Reading the request failed: the exchange is over before any upstream
    /// was involved. Client-side failures only arise here.
    pub fn on_request_error(&mut self, e: ProxyError)
        requires
            old(self).wf(),
            old(self).state == ExchangeState::ReceivingRequest,
            e.spec_is_client_side(),
        ensures
            final(self).wf(),
            final(self).state == ExchangeState::Failed,
            final(self).error == Some(e),
            final(self).conn is None,
    {
        self.error = Some(e);
        self.state = ExchangeState::Failed;
    }

    /// Asks the policy for the upstream peer. Whatever made the policy
    /// decline, the exchange fails as `NoUpstreamAvailable`, keeping the
    /// client-facing contract uniform.
    pub fn select_upstream<C, P: ProxyPolicy<C>>(&mut self, policy: &P, ctx: &mut C) -> (r: Option<
        UpstreamPeer,
    >)
        requires
            old(self).wf(),
            old(self).state == ExchangeState::SelectingUpstream,
        ensures
            final(self).wf(),
            ({
                let (pick, c2) = policy.select_upstream_spec(
                    old(self).request.unwrap()@,
                    *old(ctx),
                );
                &&& *final(ctx) == c2
                &&& match r {
                    Some(p) => pick == Some(p@) && final(self).state
                        == ExchangeState::ConnectingUpstream && final(self).error is None,
                    None => pick is None && final(self).state == ExchangeState::Failed && final(self).error == Some(ProxyError::NoUpstreamAvailable),
                }
            }),
            final(self).request == old(self).request,
            final(self).conn is None,
            final(self).retried == old(self).retried,
    {
        let picked = match &self.request {
            Some(req) => policy.select_upstream(req, ctx),
            None => None,
        };
        match picked {
            Some(p) => {
                self.state = ExchangeState::ConnectingUpstream;
                Some(p)
            },
            None => {
                self.error = Some(ProxyError::NoUpstreamAvailable);
                self.state = ExchangeState::Failed;
                None
            },
        }
    }

    /// An upstream connection is ready — pooled or freshly dialed.
    pub fn on_connection(&mut self, conn: u64, from_pool: bool)
        requires
            old(self).wf(),
            old(self).state == ExchangeState::ConnectingUpstream,
        ensures
            final(self).wf(),
            final(self).state == ExchangeState::ForwardingRequest,
            final(self).conn == Some(conn),
            final(self).conn_pooled == from_pool,
            final(self).request == old(self).request,
            final(self).error is None,
            final(self).retried == old(self).retried,
    {
        self.conn = Some(conn);
        self.conn_pooled = from_pool;
        self.state = ExchangeState::ForwardingRequest;
    }

    /// Dialing the upstream failed. The engine allows exactly one retry
    /// with a fresh dial; past that the exchange fails as unreachable, or as
    /// a TLS error when identity verification was what broke.
    pub fn on_dial_failed(&mut self, tls_error: bool) -> (retry: bool)
        requires
            old(self).wf(),
            old(self).state == ExchangeState::ConnectingUpstream,
        ensures
            final(self).wf(),
            final(self).request == old(self).request,
            final(self).conn is None,
            retry == !old(self).retried,
            retry ==> final(self).state == ExchangeState::ConnectingUpstream && final(self).retried
                && final(self).error is None,
            !retry ==> final(self).state == ExchangeState::Failed && final(self).error == Some(
                if tls_error {
                    ProxyError::UpstreamTlsError
                } else {
                    ProxyError::UpstreamUnreachable
                },
            ),
    {
        if !self.retried {
            self.retried = true;
            true
        } else {
            self.error = Some(
                if tls_error {
                    ProxyError::UpstreamTlsError
                } else {
                    ProxyError::UpstreamUnreachable
                },
            );
            self.state = ExchangeState::Failed;
            false
        }
    }

    /// The head to send upstream: the stored request after the policy's
    /// request filter. The stored head stays on hand so that a retry can
    /// prepare it again.
    pub fn prepare_upstream_request<C, P: ProxyPolicy<C>>(&self, policy: &P, ctx: &mut C) -> (r:
        Request)
        requires
            self.wf(),
            self.state == ExchangeState::ForwardingRequest,
        ensures
            ({
                let (r2, c2) = policy.filter_request_spec(self.request.unwrap()@, *old(ctx));
                r@ == r2 && *final(ctx) == c2
            }),
    {
        let mut copy = match &self.request {
            Some(req) => clone_request(req),
            None => {
                proof {
                    assert(false);
                }
                unreached()
            },
        };
        policy.filter_request(&mut copy, ctx);
        copy
    }

    /// The request head and body went out to the upstream.
    pub fn on_request_forwarded(&mut self)
        requires
            old(self).wf(),
            old(self).state == ExchangeState::ForwardingRequest,
        ensures
            final(self).wf(),
            final(self).state == ExchangeState::ReceivingUpstreamResponse,
            final(self).conn == old(self).conn,
            final(self).conn_pooled == old(self).conn_pooled,
            final(self).request == old(self).request,
            final(self).error is None,
            final(self).retried == old(self).retried,
    {
        self.state = ExchangeState::ReceivingUpstreamResponse;
    }

    /// The upstream connection broke while the request was being forwarded
    /// or while its response was awaited. A pooled connection may have gone
    /// stale between idle-check and use, so the first such failure on a
    /// pooled connection falls back to one fresh dial; otherwise the
    /// exchange fails as unreachable. Either way the broken connection is
    /// handed back for discard.
    pub fn on_upstream_failed(&mut self) -> (discard: u64)
        requires
            old(self).wf(),
            old(self).state == ExchangeState::ForwardingRequest || old(self).state
                == ExchangeState::ReceivingUpstreamResponse,
        ensures
            final(self).wf(),
            discard == old(self).conn.unwrap(),
            final(self).conn is None,
            final(self).request == old(self).request,
            old(self).conn_pooled && !old(self).retried ==> final(self).state
                == ExchangeState::ConnectingUpstream && final(self).retried && final(self).error is None,
            !(old(self).conn_pooled && !old(self).retried) ==> final(self).state
                == ExchangeState::Failed && final(self).error == Some(
                ProxyError::UpstreamUnreachable,
            ),
    {
        let c = match self.conn {
            Some(c) => c,
            None => {
                proof {
                    assert(false);
                }
                unreached()
            },
        };
        self.conn = None;
        if self.conn_pooled && !self.retried {
            self.retried = true;
            self.state = ExchangeState::ConnectingUpstream;
        } else {
            self.error = Some(ProxyError::UpstreamUnreachable);
            self.state = ExchangeState::Failed;
        }
        c
    }

    /// The upstream response head arrived: run the policy's response filter
    /// and move to forwarding it back to the client.
    pub fn on_response_head<C, P: ProxyPolicy<C>>(
        &mut self,
        policy: &P,
        resp: &mut Response,
        ctx: &mut C,
    )
        requires
            old(self).wf(),
            old(self).state == ExchangeState::ReceivingUpstreamResponse,
        ensures
            final(self).wf(),
            final(self).state == ExchangeState::ForwardingResponse,
            ({
                let (r2, c2) = policy.filter_response_spec(old(resp)@, *old(ctx));
                final(resp)@ == r2 && *final(ctx) == c2
            }),
            final(self).conn == old(self).conn,
            final(self).request == old(self).request,
            final(self).error is None,
    {
        policy.filter_response(resp, ctx);
        self.state = ExchangeState::ForwardingResponse;
    }

    /// The whole response reached the client: the exchange is done and the
    /// upstream connection goes back to the pool as healthy.
    pub fn on_response_forwarded(&mut self) -> (release: u64)
        requires
            old(self).wf(),
            old(self).state == ExchangeState::ForwardingResponse,
        ensures
            final(self).wf(),
            final(self).state == ExchangeState::Done,
            release == old(self).conn.unwrap(),
            final(self).conn is None,
            final(self).error is None,
    {
        let c = match self.conn {
            Some(c) => c,
            None => {
                proof {
                    assert(false);
                }
                unreached()
            },
        };
        self.conn = None;
        self.state = ExchangeState::Done;
        c
    }

    /// The client went away while the response was being forwarded. The
    /// upstream connection is mid-response, so it is handed back for
    /// discard, never for reuse.
    pub fn on_client_gone(&mut self) -> (discard: u64)
        requires
            old(self).wf(),
            old(self).state == ExchangeState::ForwardingResponse,
        ensures
            final(self).wf(),
            final(self).state == ExchangeState::Failed,
            final(self).error == Some(ProxyError::ConnectionClosed),
            discard == old(self).conn.unwrap(),
            final(self).conn is None,
    {
        let c = match self.conn {
            Some(c) => c,
            None => {
                proof {
                    assert(false);
                }
                unreached()
            },
        };
        self.conn = None;
        self.error = Some(ProxyError::ConnectionClosed);
        self.state = ExchangeState::Failed;
        c
    }
}

/// Failed-state cleanup guarantee: however an exchange ended, it holds no
/// upstream connection, so together with the pool's accounting no
/// connection leaks.
pub proof fn lemma_terminal_holds_no_connection(ex: Exchange)
    requires
        ex.wf(),
        ex.state == ExchangeState::Done || ex.state == ExchangeState::Failed,
    ensures
        ex.conn is None,
{
}

} // verus!
