use revproxy::engine::{Exchange, ExchangeState};
use revproxy::errors::ProxyError;
use revproxy::flow::{Relay, RelayStep};
use revproxy::http::{Header, HttpVersion, Request, Response};
use revproxy::lifecycle::{Lifecycle, ServerPhase};
use revproxy::peer::UpstreamPeer;
use revproxy::policy::{HeaderTagPolicy, ProxyPolicy, StaticPolicy};
use revproxy::pool::Pool;
use revproxy::session::ResponseSequencer;

fn local_peer() -> UpstreamPeer {
    UpstreamPeer::new(b"127.0.0.1".to_vec(), 8080, false, b"".to_vec())
}

fn get_request(path: &[u8]) -> Request {
    Request {
        method: b"GET".to_vec(),
        path: path.to_vec(),
        version: HttpVersion::Http11,
        headers: vec![Header { name: b"Host".to_vec(), value: b"example.com".to_vec() }],
    }
}

fn plain_response() -> Response {
    Response { status: 200, version: HttpVersion::Http11, headers: Vec::new() }
}

#[test]
fn exchange_happy_path_walks_every_state() {
    let policy = StaticPolicy { peer: local_peer() };
    let mut ctx = policy.new_context();
    let mut ex = Exchange::new();
    assert_eq!(ex.state, ExchangeState::ReceivingRequest);
    ex.on_request(get_request(b"/a"));
    assert_eq!(ex.state, ExchangeState::SelectingUpstream);
    let peer = ex.select_upstream(&policy, &mut ctx).expect("static policy always picks");
    assert!(peer.same_identity(&local_peer()));
    assert_eq!(ex.state, ExchangeState::ConnectingUpstream);
    ex.on_connection(7, false);
    assert_eq!(ex.state, ExchangeState::ForwardingRequest);
    let upstream_req = ex.prepare_upstream_request(&policy, &mut ctx);
    assert_eq!(upstream_req.path, b"/a".to_vec());
    ex.on_request_forwarded();
    assert_eq!(ex.state, ExchangeState::ReceivingUpstreamResponse);
    let mut resp = plain_response();
    ex.on_response_head(&policy, &mut resp, &mut ctx);
    assert_eq!(ex.state, ExchangeState::ForwardingResponse);
    let released = ex.on_response_forwarded();
    assert_eq!(released, 7);
    assert_eq!(ex.state, ExchangeState::Done);
    assert!(ex.conn.is_none());
}

#[test]
fn exchange_no_upstream_fails_with_uniform_error() {
    let policy = revproxy::policy::RefusalPolicy {};
    let mut ctx = policy.new_context();
    let mut ex = Exchange::new();
    ex.on_request(get_request(b"/a"));
    assert!(ex.select_upstream(&policy, &mut ctx).is_none());
    assert_eq!(ex.state, ExchangeState::Failed);
    assert_eq!(ex.error, Some(ProxyError::NoUpstreamAvailable));
    assert!(ex.conn.is_none());
}

#[test]
fn dial_failure_retries_once_then_fails_unreachable() {
    let policy = StaticPolicy { peer: local_peer() };
    let mut ctx = policy.new_context();
    let mut ex = Exchange::new();
    ex.on_request(get_request(b"/a"));
    ex.select_upstream(&policy, &mut ctx).unwrap();
    assert!(ex.on_dial_failed(false), "first failure earns a retry");
    assert_eq!(ex.state, ExchangeState::ConnectingUpstream);
    assert!(!ex.on_dial_failed(false), "second failure is final");
    assert_eq!(ex.state, ExchangeState::Failed);
    assert_eq!(ex.error, Some(ProxyError::UpstreamUnreachable));
}

#[test]
fn tls_failure_surfaces_tls_error() {
    let policy = StaticPolicy { peer: local_peer() };
    let mut ctx = policy.new_context();
    let mut ex = Exchange::new();
    ex.on_request(get_request(b"/a"));
    ex.select_upstream(&policy, &mut ctx).unwrap();
    assert!(ex.on_dial_failed(true));
    assert!(!ex.on_dial_failed(true));
    assert_eq!(ex.error, Some(ProxyError::UpstreamTlsError));
}

#[test]
fn stale_pooled_connection_falls_back_to_fresh_dial() {
    let policy = StaticPolicy { peer: local_peer() };
    let mut ctx = policy.new_context();
    let mut ex = Exchange::new();
    ex.on_request(get_request(b"/a"));
    ex.select_upstream(&policy, &mut ctx).unwrap();
    ex.on_connection(3, true);
    let discarded = ex.on_upstream_failed();
    assert_eq!(discarded, 3);
    assert_eq!(ex.state, ExchangeState::ConnectingUpstream, "pooled failure earns a fresh dial");
    ex.on_connection(4, false);
    let discarded_again = ex.on_upstream_failed();
    assert_eq!(discarded_again, 4);
    assert_eq!(ex.state, ExchangeState::Failed);
    assert_eq!(ex.error, Some(ProxyError::UpstreamUnreachable));
}

#[test]
fn client_gone_mid_response_discards_connection() {
    let policy = StaticPolicy { peer: local_peer() };
    let mut ctx = policy.new_context();
    let mut ex = Exchange::new();
    ex.on_request(get_request(b"/a"));
    ex.select_upstream(&policy, &mut ctx).unwrap();
    ex.on_connection(9, false);
    ex.prepare_upstream_request(&policy, &mut ctx);
    ex.on_request_forwarded();
    let mut resp = plain_response();
    ex.on_response_head(&policy, &mut resp, &mut ctx);
    let discarded = ex.on_client_gone();
    assert_eq!(discarded, 9);
    assert_eq!(ex.state, ExchangeState::Failed);
    assert_eq!(ex.error, Some(ProxyError::ConnectionClosed));
}

#[test]
fn request_error_fails_exchange_before_upstream() {
    let mut ex = Exchange::new();
    ex.on_request_error(ProxyError::MalformedRequest);
    assert_eq!(ex.state, ExchangeState::Failed);
    assert_eq!(ex.error, Some(ProxyError::MalformedRequest));
}

#[test]
fn tag_policy_stamps_header_on_every_forwarded_request() {
    let policy = HeaderTagPolicy {
        peer: local_peer(),
        name: b"X-Proxy".to_vec(),
        value: b"test".to_vec(),
    };
    let mut ctx = policy.new_context();
    for path in [b"/a".as_slice(), b"/b".as_slice(), b"/metrics".as_slice()] {
        let mut ex = Exchange::new();
        ex.on_request(get_request(path));
        ex.select_upstream(&policy, &mut ctx).unwrap();
        ex.on_connection(1, false);
        let upstream_req = ex.prepare_upstream_request(&policy, &mut ctx);
        assert!(
            revproxy::http::contains_header_value(&upstream_req.headers, b"x-proxy", b"test"),
            "upstream must observe the tag header"
        );
        let wire = revproxy::parse::serialize_request_head(&upstream_req);
        let needle = b"X-Proxy: test\r\n";
        let found = wire.windows(needle.len()).any(|w| w == needle);
        assert!(found, "serialized head must carry the tag header line");
    }
}

#[test]
fn pool_accounting_balances_acquires_and_returns() {
    let peer = local_peer();
    let mut pool = Pool::new(1000, 4);
    // Three exchanges: miss+dial, reuse, and a failure that discards.
    assert!(pool.checkout(&peer, 0).is_none());
    pool.register_dial();
    pool.release(11, &peer, true, 10);
    let reused = pool.checkout(&peer, 20).expect("fresh idle connection is reused");
    assert_eq!(reused, 11);
    pool.release(11, &peer, true, 30);
    let reused_again = pool.checkout(&peer, 40).expect("still fresh");
    pool.release(reused_again, &peer, false, 50);
    assert_eq!(pool.outstanding, 0);
    assert_eq!(
        pool.acquired,
        pool.released + pool.discarded,
        "no leaked connections once nothing is outstanding"
    );
    assert_eq!(pool.acquired, 3);
    assert_eq!(pool.released, 2);
    assert_eq!(pool.discarded, 1);
}

#[test]
fn pool_ttl_expiry_forces_fresh_dial() {
    let peer = local_peer();
    let mut pool = Pool::new(50, 4);
    assert!(pool.checkout(&peer, 0).is_none());
    pool.register_dial();
    pool.release(5, &peer, true, 0);
    // 60 ms later the idle connection exceeded its 50 ms TTL.
    assert!(pool.checkout(&peer, 60).is_none(), "expired idle connection is never reused");
    // Within the TTL it would have been reused.
    let mut pool2 = Pool::new(50, 4);
    assert!(pool2.checkout(&peer, 0).is_none());
    pool2.register_dial();
    pool2.release(5, &peer, true, 0);
    assert_eq!(pool2.checkout(&peer, 40), Some(5));
}

#[test]
fn pool_eviction_drops_only_expired_entries() {
    let peer = local_peer();
    let mut pool = Pool::new(50, 8);
    pool.register_dial();
    pool.register_dial();
    pool.release(1, &peer, true, 0);
    pool.release(2, &peer, true, 100);
    pool.evict_expired(120);
    // Entry 1 aged 120 ms and is gone; entry 2 aged 20 ms and stays.
    assert_eq!(pool.checkout(&peer, 120), Some(2));
    assert!(pool.checkout(&peer, 120).is_none());
}

#[test]
fn pool_per_peer_cap_limits_idle_entries() {
    let peer = local_peer();
    let mut pool = Pool::new(1000, 1);
    pool.register_dial();
    pool.register_dial();
    pool.release(1, &peer, true, 0);
    pool.release(2, &peer, true, 0);
    // The cap of one idle connection per peer means 2 was closed on return.
    assert_eq!(pool.checkout(&peer, 1), Some(1));
    assert!(pool.checkout(&peer, 1).is_none());
}

#[test]
fn pool_keys_by_full_peer_identity() {
    let plain = local_peer();
    let tls = UpstreamPeer::new(b"127.0.0.1".to_vec(), 8080, true, b"backend".to_vec());
    let mut pool = Pool::new(1000, 4);
    pool.register_dial();
    pool.release(1, &plain, true, 0);
    assert!(pool.checkout(&tls, 1).is_none(), "a TLS peer never gets a plain connection");
    assert_eq!(pool.checkout(&plain, 1), Some(1));
}

#[test]
fn pipelined_responses_emitted_in_request_order() {
    // Three pipelined requests whose upstreams answer after 300, 10 and
    // 100 ms: completion order is b, c, a, emission order must be a, b, c.
    let mut seq = ResponseSequencer::new();
    let a = seq.push_request();
    let b = seq.push_request();
    let c = seq.push_request();
    seq.complete(b, 102);
    assert!(seq.pop_ready().is_none(), "b waits for a");
    seq.complete(c, 103);
    assert!(seq.pop_ready().is_none(), "c waits for a");
    seq.complete(a, 101);
    assert_eq!(seq.pop_ready(), Some(101));
    assert_eq!(seq.pop_ready(), Some(102));
    assert_eq!(seq.pop_ready(), Some(103));
    assert!(seq.pop_ready().is_none());
}

#[test]
fn relay_bounds_buffering_over_large_body() {
    // A 100 MB body through a 64 KB chunk, two-chunk buffer, with a slow
    // reader taking 4 KB at a time: peak buffering stays within capacity.
    let chunk: usize = 64 * 1024;
    let body: u64 = 100 * 1024 * 1024;
    let mut relay = Relay::new(chunk, 2);
    let capacity = relay.capacity;
    let mut sent: u64 = 0;
    let mut peak: usize = 0;
    loop {
        match relay.next_step() {
            RelayStep::Read => {
                let left = body - sent;
                let n = if left >= chunk as u64 { chunk } else { left as usize };
                relay.on_read(n);
                sent += n as u64;
            }
            RelayStep::Write => {
                let n = if relay.buffered < 4 * 1024 { relay.buffered } else { 4 * 1024 };
                relay.on_write(n);
            }
            RelayStep::Finished => break,
        }
        if relay.buffered > peak {
            peak = relay.buffered;
        }
    }
    assert_eq!(relay.total_out, body);
    assert!(peak <= capacity, "buffered bytes never exceed the fixed capacity");
    assert_eq!(capacity, 2 * chunk);
}

#[test]
fn shutdown_rejects_new_work_and_drains_in_flight() {
    let mut lc = Lifecycle::new();
    assert!(lc.on_accept(), "running server accepts");
    lc.signal_shutdown(100, 500);
    assert_eq!(lc.phase, ServerPhase::Draining);
    assert!(!lc.on_accept(), "connections after the stop signal are rejected");
    assert!(
        !lc.drain_complete(300),
        "mid-flight exchange holds the drain open before the deadline"
    );
    lc.on_session_done();
    assert!(lc.drain_complete(300), "drain completes once the exchange finished");
    lc.finish_shutdown(300);
    assert_eq!(lc.phase, ServerPhase::Stopped);
    assert_eq!(lc.live_sessions, 0);
}

#[test]
fn shutdown_deadline_ends_drain_with_sessions_open() {
    let mut lc = Lifecycle::new();
    assert!(lc.on_accept());
    lc.signal_shutdown(0, 200);
    assert!(!lc.drain_complete(199));
    assert!(lc.drain_complete(200), "deadline passed: drain gives up waiting");
    lc.finish_shutdown(200);
    assert_eq!(lc.live_sessions, 0, "stragglers are forcibly closed");
}

#[test]
fn error_status_codes_match_taxonomy() {
    assert_eq!(ProxyError::MalformedRequest.status_code(), 400);
    assert_eq!(ProxyError::ConnectionClosed.status_code(), 499);
    assert_eq!(ProxyError::Timeout.status_code(), 408);
    assert_eq!(ProxyError::NoUpstreamAvailable.status_code(), 502);
    assert_eq!(ProxyError::UpstreamUnreachable.status_code(), 502);
    assert_eq!(ProxyError::UpstreamTlsError.status_code(), 502);
    assert!(ProxyError::MalformedRequest.is_client_side());
    assert!(!ProxyError::UpstreamUnreachable.is_client_side());
}
