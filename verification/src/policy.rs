use vstd::prelude::*;
use crate::http::{
    clone_bytes, has_header_value, push_header, HeaderView, ReqView, Request, RespView, Response,
};
use crate::errors::ProxyError;
use crate::peer::{PeerView, UpstreamPeer};

verus! {

/// The one extension point of the engine: the embedding application decides,
/// per request, which upstream to use, and may rewrite request and response
/// heads and observe terminal failures. Each implementation pins its exec
/// hooks to its own spec functions, so the engine's contracts can say
/// exactly what the pipeline does with a given policy. Hook order per
/// exchange: `new_context`, `select_upstream`, `filter_request`,
/// `filter_response`, and `on_error` on failure. All per-request state lives
/// in the context value `C`, owned by the policy.
pub trait ProxyPolicy<C>: Sized {
    /// What `new_context` returns.
    spec fn new_context_spec(&self) -> C;

    /// What `select_upstream` decides on a given request and context:
    /// the chosen peer (`None` means no upstream is available) and the
    /// context afterwards.
    spec fn select_upstream_spec(&self, req: ReqView, c: C) -> (Option<PeerView>, C);

    /// What `filter_request` turns a request head and context into.
    spec fn filter_request_spec(&self, req: ReqView, c: C) -> (ReqView, C);

    /// What `filter_response` turns a response head and context into.
    spec fn filter_response_spec(&self, resp: RespView, c: C) -> (RespView, C);

    /// What `on_error` leaves in the context.
    spec fn on_error_spec(&self, e: ProxyError, c: C) -> C;

    /// Produces the per-session context, called once per session.
    fn new_context(&self) -> (c: C)
        ensures
            c == self.new_context_spec(),
    ;

    /// Picks the upstream peer for one request, or reports that none is
    /// available, in which case the engine answers with a 502-class error.
    fn select_upstream(&self, req: &Request, ctx: &mut C) -> (r: Option<UpstreamPeer>)
        ensures
            ({
                let (pick, c2) = self.select_upstream_spec(req@, *old(ctx));
                &&& *final(ctx) == c2
                &&& match r {
                    Some(p) => pick == Some(p@),
                    None => pick is None,
                }
            }),
    ;

    /// May rewrite the request head before it is forwarded upstream.
    fn filter_request(&self, req: &mut Request, ctx: &mut C)
        ensures
            ({
                let (r2, c2) = self.filter_request_spec(old(req)@, *old(ctx));
                final(req)@ == r2 && *final(ctx) == c2
            }),
    ;

    /// May rewrite the response head before it returns to the client.
    fn filter_response(&self, resp: &mut Response, ctx: &mut C)
        ensures
            ({
                let (r2, c2) = self.filter_response_spec(old(resp)@, *old(ctx));
                final(resp)@ == r2 && *final(ctx) == c2
            }),
    ;

    /// Observes a terminal failure of the exchange; it cannot alter the
    /// outcome.
    fn on_error(&self, e: ProxyError, ctx: &mut C)
        ensures
            *final(ctx) == self.on_error_spec(e, *old(ctx)),
    ;
}

/// The simplest useful policy: every request goes to one fixed upstream,
/// heads pass through untouched.
pub struct StaticPolicy {
    pub peer: UpstreamPeer,
}

impl ProxyPolicy<()> for StaticPolicy {
    open spec fn new_context_spec(&self) -> () {
        ()
    }

    open spec fn select_upstream_spec(&self, req: ReqView, c: ()) -> (Option<PeerView>, ()) {
        (Some(self.peer@), c)
    }

    open spec fn filter_request_spec(&self, req: ReqView, c: ()) -> (ReqView, ()) {
        (req, c)
    }

    open spec fn filter_response_spec(&self, resp: RespView, c: ()) -> (RespView, ()) {
        (resp, c)
    }

    open spec fn on_error_spec(&self, e: ProxyError, c: ()) -> () {
        c
    }

    fn new_context(&self) -> (c: ()) {
    }

    fn select_upstream(&self, req: &Request, ctx: &mut ()) -> (r: Option<UpstreamPeer>) {
        Some(self.peer.duplicate())
    }

    fn filter_request(&self, req: &mut Request, ctx: &mut ()) {
    }

    fn filter_response(&self, resp: &mut Response, ctx: &mut ()) {
    }

    fn on_error(&self, e: ProxyError, ctx: &mut ()) {
    }
}

/// A policy with no backend to offer: every selection declines, so every
/// exchange fails as `NoUpstreamAvailable`. What a deployment looks like
/// while its upstreams are drained.
pub struct RefusalPolicy {
}

impl ProxyPolicy<()> for RefusalPolicy {
    open spec fn new_context_spec(&self) -> () {
        ()
    }

    open spec fn select_upstream_spec(&self, req: ReqView, c: ()) -> (Option<PeerView>, ()) {
        (None, c)
    }

    open spec fn filter_request_spec(&self, req: ReqView, c: ()) -> (ReqView, ()) {
        (req, c)
    }

    open spec fn filter_response_spec(&self, resp: RespView, c: ()) -> (RespView, ()) {
        (resp, c)
    }

    open spec fn on_error_spec(&self, e: ProxyError, c: ()) -> () {
        c
    }

    fn new_context(&self) -> (c: ()) {
    }

    fn select_upstream(&self, req: &Request, ctx: &mut ()) -> (r: Option<UpstreamPeer>) {
        None
    }

    fn filter_request(&self, req: &mut Request, ctx: &mut ()) {
    }

    fn filter_response(&self, resp: &mut Response, ctx: &mut ()) {
    }

    fn on_error(&self, e: ProxyError, ctx: &mut ()) {
    }
}

/// A policy that routes like `StaticPolicy` but stamps one extra header onto
/// every forwarded request, so the upstream can tell proxied traffic apart.
pub struct HeaderTagPolicy {
    pub peer: UpstreamPeer,
    pub name: Vec<u8>,
    pub value: Vec<u8>,
}

impl ProxyPolicy<()> for HeaderTagPolicy {
    open spec fn new_context_spec(&self) -> () {
        ()
    }

    open spec fn select_upstream_spec(&self, req: ReqView, c: ()) -> (Option<PeerView>, ()) {
        (Some(self.peer@), c)
    }

    open spec fn filter_request_spec(&self, req: ReqView, c: ()) -> (ReqView, ()) {
        (
            ReqView {
                headers: req.headers.push(HeaderView { name: self.name@, value: self.value@ }),
                ..req
            },
            c,
        )
    }

    open spec fn filter_response_spec(&self, resp: RespView, c: ()) -> (RespView, ()) {
        (resp, c)
    }

    open spec fn on_error_spec(&self, e: ProxyError, c: ()) -> () {
        c
    }

    fn new_context(&self) -> (c: ()) {
    }

    fn select_upstream(&self, req: &Request, ctx: &mut ()) -> (r: Option<UpstreamPeer>) {
        Some(self.peer.duplicate())
    }

    fn filter_request(&self, req: &mut Request, ctx: &mut ()) {
        let name = clone_bytes(&self.name);
        let value = clone_bytes(&self.value);
        push_header(&mut req.headers, name, value);
    }

    fn filter_response(&self, resp: &mut Response, ctx: &mut ()) {
    }

    fn on_error(&self, e: ProxyError, ctx: &mut ()) {
    }
}

/// Whatever request comes in, after `HeaderTagPolicy` filters it the head
/// carries the tag header, so the upstream observes it on every forwarded
/// request.
pub proof fn lemma_tag_header_always_forwarded(p: HeaderTagPolicy, req: ReqView, c: ())
    ensures
        has_header_value(p.filter_request_spec(req, c).0.headers, p.name@, p.value@),
{
    let hs = p.filter_request_spec(req, c).0.headers;
    assert(hs[hs.len() - 1] == (HeaderView { name: p.name@, value: p.value@ }));
}

} // verus!
