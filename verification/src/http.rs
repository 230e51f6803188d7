use vstd::prelude::*;

verus! {

/// One request or response header. Names compare ASCII-case-insensitively;
/// values are kept as the peer sent them.
pub struct Header {
    pub name: Vec<u8>,
    pub value: Vec<u8>,
}

pub ghost struct HeaderView {
    pub name: Seq<u8>,
    pub value: Seq<u8>,
}

impl View for Header {
    type V = HeaderView;

    open spec fn view(&self) -> HeaderView {
        HeaderView { name: self.name@, value: self.value@ }
    }
}

#[derive(Clone, Copy, Debug, PartialEq, Eq, Structural)]
pub enum HttpVersion {
    Http10,
    Http11,
}

/// The parsed head of one client request.
pub struct Request {
    pub method: Vec<u8>,
    pub path: Vec<u8>,
    pub version: HttpVersion,
    pub headers: Vec<Header>,
}

pub ghost struct ReqView {
    pub method: Seq<u8>,
    pub path: Seq<u8>,
    pub version: HttpVersion,
    pub headers: Seq<HeaderView>,
}

pub open spec fn headers_view(hs: Seq<Header>) -> Seq<HeaderView> {
    hs.map_values(|h: Header| h@)
}

impl View for Request {
    type V = ReqView;

    open spec fn view(&self) -> ReqView {
        ReqView {
            method: self.method@,
            path: self.path@,
            version: self.version,
            headers: headers_view(self.headers@),
        }
    }
}

/// The head of one upstream response.
pub struct Response {
    pub status: u16,
    pub version: HttpVersion,
    pub headers: Vec<Header>,
}

pub ghost struct RespView {
    pub status: u16,
    pub version: HttpVersion,
    pub headers: Seq<HeaderView>,
}

impl View for Response {
    type V = RespView;

    open spec fn view(&self) -> RespView {
        RespView {
            status: self.status,
            version: self.version,
            headers: headers_view(self.headers@),
        }
    }
}

// ---------------------------------------------------------------------------
// Byte helpers
// ---------------------------------------------------------------------------

pub open spec fn spec_lower_byte(b: u8) -> u8 {
    if 65 <= b && b <= 90 {
        (b + 32) as u8
    } else {
        b
    }
}

/// ASCII lowercase image of a byte string, the footing of header-name
/// comparison.
pub open spec fn lower(s: Seq<u8>) -> Seq<u8> {
    s.map_values(|b: u8| spec_lower_byte(b))
}

pub fn lower_byte(b: u8) -> (r: u8)
    ensures
        r == spec_lower_byte(b),
{
    if 65 <= b && b <= 90 {
        b + 32
    } else {
        b
    }
}

/// Exact equality of two byte strings.
pub fn bytes_eq(a: &[u8], b: &[u8]) -> (r: bool)
    ensures
        r == (a@ == b@),
{
    if a.len() != b.len() {
        assert(a@.len() != b@.len());
        return false;
    }
    let n = a.len();
    let mut i: usize = 0;
    while i < n
        invariant
            n == a@.len() == b@.len(),
            0 <= i <= n,
            forall|j: int| 0 <= j < i ==> a@[j] == b@[j],
        decreases n - i,
    {
        if a[i] != b[i] {
            return false;
        }
        i += 1;
    }
    assert(a@ =~= b@);
    true
}

/// ASCII-case-insensitive equality of two byte strings.
pub fn lower_eq(a: &[u8], b: &[u8]) -> (r: bool)
    ensures
        r == (lower(a@) == lower(b@)),
{
    if a.len() != b.len() {
        assert(lower(a@).len() != lower(b@).len());
        return false;
    }
    let n = a.len();
    let mut i: usize = 0;
    while i < n
        invariant
            n == a@.len() == b@.len(),
            0 <= i <= n,
            forall|j: int| 0 <= j < i ==> spec_lower_byte(a@[j]) == spec_lower_byte(b@[j]),
        decreases n - i,
    {
        if lower_byte(a[i]) != lower_byte(b[i]) {
            assert(lower(a@)[i as int] != lower(b@)[i as int]);
            return false;
        }
        i += 1;
    }
    assert(lower(a@) =~= lower(b@));
    true
}

/// Byte-for-byte copy of a byte vector.
pub fn clone_bytes(v: &Vec<u8>) -> (r: Vec<u8>)
    ensures
        r@ == v@,
{
    let mut r: Vec<u8> = Vec::new();
    let n = v.len();
    let mut i: usize = 0;
    while i < n
        invariant
            n == v@.len(),
            0 <= i <= n,
            r@ == v@.take(i as int),
        decreases n - i,
    {
        r.push(v[i]);
        assert(r@ =~= v@.take(i + 1 as int));
        i += 1;
    }
    assert(v@.take(n as int) =~= v@);
    r
}

/// A structural copy of a request head.
pub fn clone_request(req: &Request) -> (r: Request)
    ensures
        r@ == req@,
{
    let mut headers: Vec<Header> = Vec::new();
    let n = req.headers.len();
    let mut i: usize = 0;
    while i < n
        invariant
            n == req.headers@.len(),
            0 <= i <= n,
            headers_view(headers@) == headers_view(req.headers@).take(i as int),
        decreases n - i,
    {
        let ghost before = headers_view(headers@);
        let name = clone_bytes(&req.headers[i].name);
        let value = clone_bytes(&req.headers[i].value);
        headers.push(Header { name, value });
        proof {
            assert(headers_view(headers@) =~= before.push(headers_view(req.headers@)[i as int]));
            assert(headers_view(headers@) =~= headers_view(req.headers@).take(i + 1));
        }
        i += 1;
    }
    proof {
        assert(headers_view(req.headers@).take(n as int) =~= headers_view(req.headers@));
    }
    Request {
        method: clone_bytes(&req.method),
        path: clone_bytes(&req.path),
        version: req.version,
        headers,
    }
}

// ---------------------------------------------------------------------------
// Header operations
// ---------------------------------------------------------------------------

/// Whether a header carries the given name, names compared case-insensitively.
pub open spec fn header_named(h: HeaderView, name: Seq<u8>) -> bool {
    lower(h.name) == lower(name)
}

/// Whether some header with the given name carries the given value,
/// both compared case-insensitively.
pub open spec fn has_header_value(hs: Seq<HeaderView>, name: Seq<u8>, value: Seq<u8>) -> bool {
    exists|i: int|
        0 <= i < hs.len() && header_named(hs[i], name) && lower(hs[i].value) == lower(value)
}

/// Whether some header carries the given name.
pub open spec fn has_header(hs: Seq<HeaderView>, name: Seq<u8>) -> bool {
    exists|i: int| 0 <= i < hs.len() && header_named(hs[i], name)
}

/// Index of the first header with the given name.
pub fn find_header(headers: &Vec<Header>, name: &[u8]) -> (r: Option<usize>)
    ensures
        match r {
            Some(i) => i < headers@.len() && header_named(headers_view(headers@)[i as int], name@)
                && forall|j: int|
                    0 <= j < i ==> !header_named(headers_view(headers@)[j], name@),
            None => !has_header(headers_view(headers@), name@),
        },
{
    let n = headers.len();
    let mut i: usize = 0;
    while i < n
        invariant
            n == headers@.len(),
            0 <= i <= n,
            forall|j: int| 0 <= j < i ==> !header_named(headers_view(headers@)[j], name@),
        decreases n - i,
    {
        if lower_eq(headers[i].name.as_slice(), name) {
            assert(header_named(headers_view(headers@)[i as int], name@));
            return Some(i);
        }
        assert(!header_named(headers_view(headers@)[i as int], name@));
        i += 1;
    }
    None
}

/// Whether some header carries the given name and value.
pub fn contains_header_value(headers: &Vec<Header>, name: &[u8], value: &[u8]) -> (r: bool)
    ensures
        r == has_header_value(headers_view(headers@), name@, value@),
{
    let n = headers.len();
    let mut i: usize = 0;
    while i < n
        invariant
            n == headers@.len(),
            0 <= i <= n,
            forall|j: int|
                0 <= j < i ==> !(header_named(headers_view(headers@)[j], name@) && lower(
                    headers_view(headers@)[j].value,
                ) == lower(value@)),
        decreases n - i,
    {
        if lower_eq(headers[i].name.as_slice(), name) && lower_eq(
            headers[i].value.as_slice(),
            value,
        ) {
            assert(header_named(headers_view(headers@)[i as int], name@) && lower(
                headers_view(headers@)[i as int].value,
            ) == lower(value@));
            return true;
        }
        i += 1;
    }
    false
}

/// Appends one header, leaving every earlier header in place.
pub fn push_header(headers: &mut Vec<Header>, name: Vec<u8>, value: Vec<u8>)
    ensures
        headers_view(final(headers)@) == headers_view(old(headers)@).push(
            HeaderView { name: name@, value: value@ },
        ),
{
    let ghost before = headers@;
    headers.push(Header { name, value });
    assert(headers_view(headers@) =~= headers_view(before).push(
        HeaderView { name: name@, value: value@ },
    ));
}

// ---------------------------------------------------------------------------
// Keep-alive policy
// ---------------------------------------------------------------------------

pub open spec fn connection_name() -> Seq<u8> {
    seq![99, 111, 110, 110, 101, 99, 116, 105, 111, 110]
}

pub open spec fn close_token() -> Seq<u8> {
    seq![99, 108, 111, 115, 101]
}

pub open spec fn keep_alive_token() -> Seq<u8> {
    seq![107, 101, 101, 112, 45, 97, 108, 105, 118, 101]
}

pub fn connection_bytes() -> (v: Vec<u8>)
    ensures
        v@ == connection_name(),
{
    let mut v: Vec<u8> = Vec::new();
    v.push(99);
    v.push(111);
    v.push(110);
    v.push(110);
    v.push(101);
    v.push(99);
    v.push(116);
    v.push(105);
    v.push(111);
    v.push(110);
    assert(v@ =~= connection_name());
    v
}

pub fn close_bytes() -> (v: Vec<u8>)
    ensures
        v@ == close_token(),
{
    let mut v: Vec<u8> = Vec::new();
    v.push(99);
    v.push(108);
    v.push(111);
    v.push(115);
    v.push(101);
    assert(v@ =~= close_token());
    v
}

pub fn keep_alive_bytes() -> (v: Vec<u8>)
    ensures
        v@ == keep_alive_token(),
{
    let mut v: Vec<u8> = Vec::new();
    v.push(107);
    v.push(101);
    v.push(101);
    v.push(112);
    v.push(45);
    v.push(97);
    v.push(108);
    v.push(105);
    v.push(118);
    v.push(101);
    assert(v@ =~= keep_alive_token());
    v
}

/// Whether the client side permits reusing the transport connection for the
/// next exchange: an explicit `close` forbids it, HTTP/1.1 defaults to
/// reuse, HTTP/1.0 reuses only on an explicit `keep-alive`.
pub open spec fn spec_wants_keep_alive(version: HttpVersion, hs: Seq<HeaderView>) -> bool {
    if has_header_value(hs, connection_name(), close_token()) {
        false
    } else if version == HttpVersion::Http11 {
        true
    } else {
        has_header_value(hs, connection_name(), keep_alive_token())
    }
}

pub fn request_allows_keep_alive(req: &Request) -> (r: bool)
    ensures
        r == spec_wants_keep_alive(req@.version, req@.headers),
{
    allows_keep_alive(req.version, &req.headers)
}

pub fn response_allows_keep_alive(resp: &Response) -> (r: bool)
    ensures
        r == spec_wants_keep_alive(resp@.version, resp@.headers),
{
    allows_keep_alive(resp.version, &resp.headers)
}

fn allows_keep_alive(version: HttpVersion, headers: &Vec<Header>) -> (r: bool)
    ensures
        r == spec_wants_keep_alive(version, headers_view(headers@)),
{
    let conn = connection_bytes();
    let close = close_bytes();
    if contains_header_value(headers, conn.as_slice(), close.as_slice()) {
        return false;
    }
    if matches!(version, HttpVersion::Http11) {
        return true;
    }
    let keep = keep_alive_bytes();
    contains_header_value(headers, conn.as_slice(), keep.as_slice())
}

/// After one complete exchange the session parses the next request on the
/// same transport connection only when both sides permit reuse.
pub fn should_keep_alive(req: &Request, resp: &Response) -> (r: bool)
    ensures
        r == (spec_wants_keep_alive(req@.version, req@.headers) && spec_wants_keep_alive(
            resp@.version,
            resp@.headers,
        )),
{
    request_allows_keep_alive(req) && response_allows_keep_alive(resp)
}

} // verus!
