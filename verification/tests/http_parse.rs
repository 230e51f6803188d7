use revproxy::http::{
    bytes_eq, clone_request, contains_header_value, find_header, lower_eq, push_header,
    request_allows_keep_alive, response_allows_keep_alive, should_keep_alive, Header, HttpVersion,
    Request, Response,
};
use revproxy::parse::{find_head_end, parse_request_head, parse_response_head, serialize_request_head};
use revproxy::peer::UpstreamPeer;

fn req(version: HttpVersion, headers: Vec<Header>) -> Request {
    Request { method: b"GET".to_vec(), path: b"/".to_vec(), version, headers }
}

fn hdr(name: &[u8], value: &[u8]) -> Header {
    Header { name: name.to_vec(), value: value.to_vec() }
}

#[test]
fn byte_comparisons() {
    assert!(bytes_eq(b"abc", b"abc"));
    assert!(!bytes_eq(b"abc", b"abd"));
    assert!(!bytes_eq(b"abc", b"ab"));
    assert!(lower_eq(b"Connection", b"cOnNeCtIoN"));
    assert!(!lower_eq(b"Connection", b"Connexion"));
}

#[test]
fn header_lookup_is_case_insensitive() {
    let headers = vec![hdr(b"Host", b"example.com"), hdr(b"X-Trace", b"1")];
    assert_eq!(find_header(&headers, b"host"), Some(0));
    assert_eq!(find_header(&headers, b"X-TRACE"), Some(1));
    assert_eq!(find_header(&headers, b"cookie"), None);
    assert!(contains_header_value(&headers, b"x-trace", b"1"));
    assert!(!contains_header_value(&headers, b"x-trace", b"2"));
}

#[test]
fn push_header_appends() {
    let mut headers = vec![hdr(b"Host", b"example.com")];
    push_header(&mut headers, b"X-Proxy".to_vec(), b"test".to_vec());
    assert_eq!(headers.len(), 2);
    assert_eq!(headers[1].name, b"X-Proxy".to_vec());
    assert_eq!(headers[1].value, b"test".to_vec());
}

#[test]
fn keep_alive_defaults_by_version() {
    assert!(request_allows_keep_alive(&req(HttpVersion::Http11, vec![])));
    assert!(!request_allows_keep_alive(&req(HttpVersion::Http10, vec![])));
}

#[test]
fn keep_alive_honors_connection_header() {
    assert!(!request_allows_keep_alive(
        &req(HttpVersion::Http11, vec![hdr(b"Connection", b"close")])
    ));
    assert!(!request_allows_keep_alive(
        &req(HttpVersion::Http11, vec![hdr(b"CONNECTION", b"CLOSE")])
    ));
    assert!(request_allows_keep_alive(
        &req(HttpVersion::Http10, vec![hdr(b"Connection", b"keep-alive")])
    ));
}

#[test]
fn keep_alive_needs_both_sides() {
    let client = req(HttpVersion::Http11, vec![]);
    let closing = Response {
        status: 200,
        version: HttpVersion::Http11,
        headers: vec![hdr(b"Connection", b"close")],
    };
    let open = Response { status: 200, version: HttpVersion::Http11, headers: vec![] };
    assert!(response_allows_keep_alive(&open));
    assert!(!response_allows_keep_alive(&closing));
    assert!(should_keep_alive(&client, &open));
    assert!(!should_keep_alive(&client, &closing));
}

#[test]
fn clone_request_copies_everything() {
    let original = req(HttpVersion::Http10, vec![hdr(b"Host", b"a"), hdr(b"Accept", b"*/*")]);
    let copy = clone_request(&original);
    assert_eq!(copy.method, original.method);
    assert_eq!(copy.path, original.path);
    assert_eq!(copy.version, original.version);
    assert_eq!(copy.headers.len(), 2);
    assert_eq!(copy.headers[1].name, b"Accept".to_vec());
}

#[test]
fn peer_identity_compares_all_fields() {
    let a = UpstreamPeer::new(b"h".to_vec(), 80, false, b"".to_vec());
    let b = UpstreamPeer::new(b"h".to_vec(), 80, false, b"".to_vec());
    let c = UpstreamPeer::new(b"h".to_vec(), 81, false, b"".to_vec());
    let d = UpstreamPeer::new(b"h".to_vec(), 80, true, b"".to_vec());
    assert!(a.same_identity(&b));
    assert!(!a.same_identity(&c));
    assert!(!a.same_identity(&d));
    assert!(a.same_identity(&a.duplicate()));
}

#[test]
fn head_end_waits_for_blank_line() {
    assert_eq!(find_head_end(b"GET / HTTP/1.1\r\nHost"), None);
    assert_eq!(find_head_end(b""), None);
    let full = b"GET / HTTP/1.1\r\n\r\ntrailing-body";
    assert_eq!(find_head_end(full), Some(18));
}

#[test]
fn parse_minimal_request() {
    let bytes = b"GET / HTTP/1.1\r\n\r\n";
    let n = find_head_end(bytes).unwrap();
    let req = parse_request_head(bytes, n).expect("well-formed head");
    assert_eq!(req.method, b"GET".to_vec());
    assert_eq!(req.path, b"/".to_vec());
    assert_eq!(req.version, HttpVersion::Http11);
    assert!(req.headers.is_empty());
}

#[test]
fn parse_request_with_headers() {
    let bytes = b"POST /api/v1?q=2 HTTP/1.0\r\nHost: example.com\r\nAccept: */*\r\n\r\n";
    let n = find_head_end(bytes).unwrap();
    assert_eq!(n, bytes.len());
    let req = parse_request_head(bytes, n).expect("well-formed head");
    assert_eq!(req.method, b"POST".to_vec());
    assert_eq!(req.path, b"/api/v1?q=2".to_vec());
    assert_eq!(req.version, HttpVersion::Http10);
    assert_eq!(req.headers.len(), 2);
    assert_eq!(req.headers[0].name, b"Host".to_vec());
    assert_eq!(req.headers[0].value, b"example.com".to_vec());
    assert_eq!(req.headers[1].name, b"Accept".to_vec());
    assert_eq!(req.headers[1].value, b"*/*".to_vec());
}

#[test]
fn parse_rejects_malformed_heads() {
    for bytes in [
        b"GET /\r\n\r\n".as_slice(),                        // no version
        b"GET / HTTP/2.0\r\n\r\n".as_slice(),               // unknown version
        b"GET  / HTTP/1.1\r\n\r\n".as_slice(),              // double space
        b"GET / HTTP/1.1\r\nHost:example\r\n\r\n".as_slice(), // no space after colon
        b"GET / HTTP/1.1\r\n: v\r\n\r\n".as_slice(),        // empty header name
        b"\r\nGET / HTTP/1.1\r\n\r\n".as_slice(),           // leading blank line
    ] {
        let n = find_head_end(bytes).unwrap();
        assert!(parse_request_head(bytes, n).is_none(), "must reject: {:?}", bytes);
    }
}

#[test]
fn serialize_writes_canonical_head() {
    let request = Request {
        method: b"GET".to_vec(),
        path: b"/x".to_vec(),
        version: HttpVersion::Http11,
        headers: vec![hdr(b"Host", b"h"), hdr(b"X-Proxy", b"test")],
    };
    let wire = serialize_request_head(&request);
    assert_eq!(wire, b"GET /x HTTP/1.1\r\nHost: h\r\nX-Proxy: test\r\n\r\n".to_vec());
}

#[test]
fn serialized_head_parses_back_unchanged() {
    let request = Request {
        method: b"PUT".to_vec(),
        path: b"/store/7".to_vec(),
        version: HttpVersion::Http10,
        headers: vec![hdr(b"Host", b"backend"), hdr(b"Content-Length", b"0")],
    };
    let wire = serialize_request_head(&request);
    let n = find_head_end(&wire).unwrap();
    assert_eq!(n, wire.len());
    let parsed = parse_request_head(&wire, n).expect("round trip");
    assert_eq!(parsed.method, request.method);
    assert_eq!(parsed.path, request.path);
    assert_eq!(parsed.version, request.version);
    assert_eq!(parsed.headers.len(), request.headers.len());
    for (a, b) in parsed.headers.iter().zip(request.headers.iter()) {
        assert_eq!(a.name, b.name);
        assert_eq!(a.value, b.value);
    }
}

#[test]
fn parse_response_with_headers() {
    let bytes = b"HTTP/1.1 200 OK\r\nContent-Type: text/plain\r\n\r\n";
    let n = find_head_end(bytes).unwrap();
    let resp = parse_response_head(bytes, n).expect("well-formed response head");
    assert_eq!(resp.status, 200);
    assert_eq!(resp.version, HttpVersion::Http11);
    assert_eq!(resp.headers.len(), 1);
    assert_eq!(resp.headers[0].name, b"Content-Type".to_vec());
    assert_eq!(resp.headers[0].value, b"text/plain".to_vec());
}

#[test]
fn parse_response_without_reason_phrase() {
    let bytes = b"HTTP/1.0 404\r\n\r\n";
    let n = find_head_end(bytes).unwrap();
    let resp = parse_response_head(bytes, n).expect("reason phrase is optional");
    assert_eq!(resp.status, 404);
    assert_eq!(resp.version, HttpVersion::Http10);
    assert!(resp.headers.is_empty());
}

#[test]
fn parse_rejects_malformed_status_lines() {
    for bytes in [
        b"HTTP/2 200 OK\r\n\r\n".as_slice(),  // unknown version
        b"HTTP/1.1 20 OK\r\n\r\n".as_slice(), // two-digit status
        b"HTTP/1.1 abc Bad\r\n\r\n".as_slice(), // non-numeric status
        b"HTTP/1.1 200OK\r\n\r\n".as_slice(), // missing space before reason
    ] {
        let n = find_head_end(bytes).unwrap();
        assert!(parse_response_head(bytes, n).is_none(), "must reject: {:?}", bytes);
    }
}
