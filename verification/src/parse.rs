use vstd::prelude::*;
use crate::http::{Header, HeaderView, HttpVersion, Request, ReqView, Response, RespView};

verus! {

// ---------------------------------------------------------------------------
// The grammar, as spec functions. A request head is
//   method SP path SP version CRLF (name ": " value CRLF)* CRLF
// with tokens and values drawn from printable ASCII. The parser is strict:
// exactly one space between fields and after each colon.
// ---------------------------------------------------------------------------

/// A byte allowed in a method or header name.
pub open spec fn is_token_byte(b: u8) -> bool {
    33 <= b && b <= 126 && b != 58 && b != 32
}

/// A byte allowed in a request path: printable, no whitespace.
pub open spec fn is_path_byte(b: u8) -> bool {
    33 <= b && b <= 126
}

/// A byte allowed in a header value: printable or space.
pub open spec fn is_value_byte(b: u8) -> bool {
    32 <= b && b <= 126
}

pub open spec fn all_token(s: Seq<u8>) -> bool {
    forall|i: int| 0 <= i < s.len() ==> is_token_byte(#[trigger] s[i])
}

pub open spec fn all_path(s: Seq<u8>) -> bool {
    forall|i: int| 0 <= i < s.len() ==> is_path_byte(#[trigger] s[i])
}

pub open spec fn all_value(s: Seq<u8>) -> bool {
    forall|i: int| 0 <= i < s.len() ==> is_value_byte(#[trigger] s[i])
}

pub open spec fn http10_bytes() -> Seq<u8> {
    seq![72u8, 84u8, 84u8, 80u8, 47u8, 49u8, 46u8, 48u8]
}

pub open spec fn http11_bytes() -> Seq<u8> {
    seq![72u8, 84u8, 84u8, 80u8, 47u8, 49u8, 46u8, 49u8]
}

/// First occurrence of `b` in `s` at or after `from`.
pub open spec fn spec_find(s: Seq<u8>, b: u8, from: int) -> Option<int>
    decreases s.len() - from,
{
    if from < 0 || from >= s.len() {
        None
    } else if s[from] == b {
        Some(from)
    } else {
        spec_find(s, b, from + 1)
    }
}

/// First CR-LF pair in `s` starting at or after `from`.
pub open spec fn spec_find_crlf(s: Seq<u8>, from: int) -> Option<int>
    decreases s.len() - from,
{
    if from < 0 || from + 2 > s.len() {
        None
    } else if s[from] == 13 && s[from + 1] == 10 {
        Some(from)
    } else {
        spec_find_crlf(s, from + 1)
    }
}

/// The request line, without its CRLF: `method SP path SP version`.
pub open spec fn spec_parse_request_line(line: Seq<u8>) -> Option<(Seq<u8>, Seq<u8>, HttpVersion)> {
    match spec_find(line, 32, 0) {
        None => None,
        Some(sp1) => match spec_find(line, 32, sp1 + 1) {
            None => None,
            Some(sp2) => {
                let method = line.subrange(0, sp1);
                let path = line.subrange(sp1 + 1, sp2);
                let vers = line.subrange(sp2 + 1, line.len() as int);
                if method.len() == 0 || !all_token(method) {
                    None
                } else if path.len() == 0 || !all_path(path) {
                    None
                } else if vers == http11_bytes() {
                    Some((method, path, HttpVersion::Http11))
                } else if vers == http10_bytes() {
                    Some((method, path, HttpVersion::Http10))
                } else {
                    None
                }
            },
        },
    }
}

/// One header line, without its CRLF: `name ": " value`.
pub open spec fn spec_parse_header_line(line: Seq<u8>) -> Option<HeaderView> {
    match spec_find(line, 58, 0) {
        None => None,
        Some(c) => {
            let name = line.subrange(0, c);
            if name.len() == 0 || !all_token(name) {
                None
            } else if c + 1 < line.len() && line[c + 1] == 32 {
                let value = line.subrange(c + 2, line.len() as int);
                if all_value(value) {
                    Some(HeaderView { name, value })
                } else {
                    None
                }
            } else {
                None
            }
        },
    }
}

/// The header block of `s` from `pos` on: header lines up to a blank line
/// that must close `s` exactly.
pub open spec fn spec_parse_headers_at(s: Seq<u8>, pos: int) -> Option<Seq<HeaderView>>
    decreases s.len() - pos,
{
    match spec_find_crlf(s, pos) {
        None => None,
        Some(e) => {
            if e < pos || e + 2 > s.len() {
                None
            } else if e == pos {
                if pos + 2 == s.len() {
                    Some(Seq::empty())
                } else {
                    None
                }
            } else {
                match spec_parse_header_line(s.subrange(pos, e)) {
                    None => None,
                    Some(h) => match spec_parse_headers_at(s, e + 2) {
                        None => None,
                        Some(rest) => Some(seq![h] + rest),
                    },
                }
            }
        },
    }
}

/// A whole request head: `s` must be exactly the head, blank line included.
pub open spec fn spec_parse_head(s: Seq<u8>) -> Option<ReqView> {
    match spec_find_crlf(s, 0) {
        None => None,
        Some(e) => {
            if e <= 0 {
                None
            } else {
                match spec_parse_request_line(s.subrange(0, e)) {
                    None => None,
                    Some(rl) => match spec_parse_headers_at(s, e + 2) {
                        None => None,
                        Some(hs) => Some(
                            ReqView { method: rl.0, path: rl.1, version: rl.2, headers: hs },
                        ),
                    },
                }
            }
        },
    }
}

pub open spec fn is_digit(b: u8) -> bool {
    48 <= b && b <= 57
}

/// The status line of a response, without its CRLF:
/// `version SP 3-digit-status [SP reason]`.
pub open spec fn spec_parse_status_line(line: Seq<u8>) -> Option<(HttpVersion, u16)> {
    match spec_find(line, 32, 0) {
        None => None,
        Some(sp) => {
            let vers = line.subrange(0, sp);
            let v = if vers == http11_bytes() {
                Some(HttpVersion::Http11)
            } else if vers == http10_bytes() {
                Some(HttpVersion::Http10)
            } else {
                None
            };
            match v {
                None => None,
                Some(v) => {
                    if sp + 4 <= line.len() && is_digit(line[sp + 1]) && is_digit(line[sp + 2])
                        && is_digit(line[sp + 3]) && (sp + 4 == line.len() || (line[sp + 4] == 32
                        && all_value(line.subrange(sp + 5, line.len() as int)))) {
                        Some(
                            (
                                v,
                                (100 * (line[sp + 1] - 48) + 10 * (line[sp + 2] - 48) + (line[sp
                                    + 3] - 48)) as u16,
                            ),
                        )
                    } else {
                        None
                    }
                },
            }
        },
    }
}

/// A whole response head: status line then the header block.
pub open spec fn spec_parse_response_head(s: Seq<u8>) -> Option<RespView> {
    match spec_find_crlf(s, 0) {
        None => None,
        Some(e) => {
            if e <= 0 {
                None
            } else {
                match spec_parse_status_line(s.subrange(0, e)) {
                    None => None,
                    Some(sl) => match spec_parse_headers_at(s, e + 2) {
                        None => None,
                        Some(hs) => Some(RespView { status: sl.1, version: sl.0, headers: hs }),
                    },
                }
            }
        },
    }
}

// ---------------------------------------------------------------------------
// Finding the end of a head in a stream buffer
// ---------------------------------------------------------------------------

/// Whether the head terminator CRLF-CRLF sits at `i`.
pub open spec fn is_terminator_at(s: Seq<u8>, i: int) -> bool {
    0 <= i && i + 4 <= s.len() && s[i] == 13 && s[i + 1] == 10 && s[i + 2] == 13 && s[i + 3] == 10
}

/// Bytes consumed by the first complete head in `buf`, if one has arrived:
/// everything up to and including the first blank line. `None` means the
/// head is still incomplete — more bytes must be read (or the peer gave up).
pub fn find_head_end(buf: &[u8]) -> (r: Option<usize>)
    ensures
        match r {
            Some(n) => 4 <= n <= buf@.len() && is_terminator_at(buf@, n - 4) && forall|i: int|
                0 <= i < n - 4 ==> !is_terminator_at(buf@, i),
            None => forall|i: int| !is_terminator_at(buf@, i),
        },
{
    if buf.len() < 4 {
        return None;
    }
    let mut i: usize = 0;
    while i <= buf.len() - 4
        invariant
            buf@.len() >= 4,
            0 <= i,
            i <= buf@.len(),
            forall|j: int| 0 <= j < i ==> !is_terminator_at(buf@, j),
        decreases buf@.len() - i,
    {
        if buf[i] == 13 && buf[i + 1] == 10 && buf[i + 2] == 13 && buf[i + 3] == 10 {
            return Some(i + 4);
        }
        assert(!is_terminator_at(buf@, i as int));
        i += 1;
    }
    None
}

// ---------------------------------------------------------------------------
// Executable parser, proved equal to the grammar
// ---------------------------------------------------------------------------

/// First occurrence of `b` within `buf[..end]` at or after `from`.
fn find_byte(buf: &[u8], end: usize, b: u8, from: usize) -> (r: Option<usize>)
    requires
        end <= buf@.len(),
    ensures
        match r {
            Some(i) => from <= i < end && Some(i as int) == spec_find(
                buf@.take(end as int),
                b,
                from as int,
            ),
            None => spec_find(buf@.take(end as int), b, from as int) is None,
        },
{
    let ghost s = buf@.take(end as int);
    let mut i: usize = from;
    if i >= end {
        return None;
    }
    while i < end
        invariant
            end <= buf@.len(),
            from <= i <= end,
            s == buf@.take(end as int),
            spec_find(s, b, from as int) == spec_find(s, b, i as int),
        decreases end - i,
    {
        if buf[i] == b {
            assert(spec_find(s, b, i as int) == Some(i as int));
            return Some(i);
        }
        assert(spec_find(s, b, i as int) == spec_find(s, b, i + 1));
        i += 1;
    }
    assert(spec_find(s, b, i as int) is None);
    None
}

/// First CRLF within `buf[..end]` at or after `from`.
fn find_crlf(buf: &[u8], end: usize, from: usize) -> (r: Option<usize>)
    requires
        end <= buf@.len(),
    ensures
        match r {
            Some(i) => from <= i && i + 2 <= end && Some(i as int) == spec_find_crlf(
                buf@.take(end as int),
                from as int,
            ),
            None => spec_find_crlf(buf@.take(end as int), from as int) is None,
        },
{
    let ghost s = buf@.take(end as int);
    let mut i: usize = from;
    if end < 2 || i > end - 2 {
        return None;
    }
    while i <= end - 2
        invariant
            2 <= end <= buf@.len(),
            from <= i <= end,
            s == buf@.take(end as int),
            spec_find_crlf(s, from as int) == spec_find_crlf(s, i as int),
        decreases end - i,
    {
        if buf[i] == 13 && buf[i + 1] == 10 {
            assert(spec_find_crlf(s, i as int) == Some(i as int));
            return Some(i);
        }
        assert(spec_find_crlf(s, i as int) == spec_find_crlf(s, i + 1));
        i += 1;
    }
    assert(spec_find_crlf(s, i as int) is None);
    None
}

/// Copy of `buf[lo..hi]`.
fn copy_range(buf: &[u8], lo: usize, hi: usize) -> (v: Vec<u8>)
    requires
        lo <= hi <= buf@.len(),
    ensures
        v@ == buf@.subrange(lo as int, hi as int),
{
    let mut v: Vec<u8> = Vec::new();
    let mut i: usize = lo;
    while i < hi
        invariant
            lo <= i <= hi <= buf@.len(),
            v@ == buf@.subrange(lo as int, i as int),
        decreases hi - i,
    {
        v.push(buf[i]);
        assert(v@ =~= buf@.subrange(lo as int, i + 1));
        i += 1;
    }
    v
}

fn check_all_token(v: &[u8]) -> (r: bool)
    ensures
        r == all_token(v@),
{
    let mut i: usize = 0;
    while i < v.len()
        invariant
            0 <= i <= v@.len(),
            forall|j: int| 0 <= j < i ==> is_token_byte(#[trigger] v@[j]),
        decreases v@.len() - i,
    {
        let b = v[i];
        if !(33 <= b && b <= 126 && b != 58 && b != 32) {
            assert(!is_token_byte(v@[i as int]));
            return false;
        }
        i += 1;
    }
    true
}

fn check_all_path(v: &[u8]) -> (r: bool)
    ensures
        r == all_path(v@),
{
    let mut i: usize = 0;
    while i < v.len()
        invariant
            0 <= i <= v@.len(),
            forall|j: int| 0 <= j < i ==> is_path_byte(#[trigger] v@[j]),
        decreases v@.len() - i,
    {
        let b = v[i];
        if !(33 <= b && b <= 126) {
            assert(!is_path_byte(v@[i as int]));
            return false;
        }
        i += 1;
    }
    true
}

fn check_all_value(v: &[u8]) -> (r: bool)
    ensures
        r == all_value(v@),
{
    let mut i: usize = 0;
    while i < v.len()
        invariant
            0 <= i <= v@.len(),
            forall|j: int| 0 <= j < i ==> is_value_byte(#[trigger] v@[j]),
        decreases v@.len() - i,
    {
        let b = v[i];
        if !(32 <= b && b <= 126) {
            assert(!is_value_byte(v@[i as int]));
            return false;
        }
        i += 1;
    }
    true
}

fn http11_vec() -> (v: Vec<u8>)
    ensures
        v@ == http11_bytes(),
{
    let mut v: Vec<u8> = Vec::new();
    v.push(72);
    v.push(84);
    v.push(84);
    v.push(80);
    v.push(47);
    v.push(49);
    v.push(46);
    v.push(49);
    assert(v@ =~= http11_bytes());
    v
}

fn http10_vec() -> (v: Vec<u8>)
    ensures
        v@ == http10_bytes(),
{
    let mut v: Vec<u8> = Vec::new();
    v.push(72);
    v.push(84);
    v.push(84);
    v.push(80);
    v.push(47);
    v.push(49);
    v.push(46);
    v.push(48);
    assert(v@ =~= http10_bytes());
    v
}

/// Parses one request line (no CRLF), exactly as the grammar reads it.
fn parse_request_line(line: &Vec<u8>) -> (r: Option<(Vec<u8>, Vec<u8>, HttpVersion)>)
    ensures
        match r {
            Some(t) => spec_parse_request_line(line@) == Some((t.0@, t.1@, t.2)),
            None => spec_parse_request_line(line@) is None,
        },
{
    let n = line.len();
    proof {
        assert(line@.take(n as int) =~= line@);
    }
    let sp1 = match find_byte(line.as_slice(), n, 32, 0) {
        None => {
            return None;
        },
        Some(i) => i,
    };
    let sp2 = match find_byte(line.as_slice(), n, 32, sp1 + 1) {
        None => {
            return None;
        },
        Some(i) => i,
    };
    let method = copy_range(line.as_slice(), 0, sp1);
    let path = copy_range(line.as_slice(), sp1 + 1, sp2);
    let vers = copy_range(line.as_slice(), sp2 + 1, n);
    if method.len() == 0 || !check_all_token(method.as_slice()) {
        return None;
    }
    if path.len() == 0 || !check_all_path(path.as_slice()) {
        return None;
    }
    let v11 = http11_vec();
    let v10 = http10_vec();
    if crate::http::bytes_eq(vers.as_slice(), v11.as_slice()) {
        Some((method, path, HttpVersion::Http11))
    } else if crate::http::bytes_eq(vers.as_slice(), v10.as_slice()) {
        Some((method, path, HttpVersion::Http10))
    } else {
        None
    }
}

/// Parses one header line (no CRLF), exactly as the grammar reads it.
fn parse_header_line(line: &Vec<u8>) -> (r: Option<Header>)
    ensures
        match r {
            Some(h) => spec_parse_header_line(line@) == Some(h@),
            None => spec_parse_header_line(line@) is None,
        },
{
    let n = line.len();
    proof {
        assert(line@.take(n as int) =~= line@);
    }
    let c = match find_byte(line.as_slice(), n, 58, 0) {
        None => {
            return None;
        },
        Some(i) => i,
    };
    let name = copy_range(line.as_slice(), 0, c);
    if name.len() == 0 || !check_all_token(name.as_slice()) {
        return None;
    }
    if c + 1 < n && line[c + 1] == 32 {
        let value = copy_range(line.as_slice(), c + 2, n);
        if check_all_value(value.as_slice()) {
            Some(Header { name, value })
        } else {
            None
        }
    } else {
        None
    }
}

/// Parses the header block of `buf[..end]` beginning at `start`, exactly as
/// the grammar reads it.
fn parse_header_block(buf: &[u8], end: usize, start: usize) -> (r: Option<Vec<Header>>)
    requires
        end <= buf@.len(),
        0 < start <= end,
    ensures
        match r {
            Some(hs) => spec_parse_headers_at(buf@.take(end as int), start as int) == Some(
                crate::http::headers_view(hs@),
            ),
            None => spec_parse_headers_at(buf@.take(end as int), start as int) is None,
        },
{
    let ghost s = buf@.take(end as int);
    let mut headers: Vec<Header> = Vec::new();
    let mut pos: usize = start;
    proof {
        assert(crate::http::headers_view(headers@) =~= Seq::<HeaderView>::empty());
        let nxt = spec_parse_headers_at(s, pos as int);
        if nxt is Some {
            assert(Seq::<HeaderView>::empty() + nxt.unwrap() =~= nxt.unwrap());
        }
    }
    loop
        invariant
            end <= buf@.len(),
            s == buf@.take(end as int),
            0 < pos <= end,
            spec_parse_headers_at(s, start as int) == match spec_parse_headers_at(s, pos as int) {
                None => None::<Seq<HeaderView>>,
                Some(rest) => Some(crate::http::headers_view(headers@) + rest),
            },
        decreases end + 2 - pos,
    {
        let le = match find_crlf(buf, end, pos) {
            None => {
                return None;
            },
            Some(le) => le,
        };
        if le == pos {
            if pos + 2 == end {
                proof {
                    assert(spec_parse_headers_at(s, pos as int) == Some(Seq::<HeaderView>::empty()));
                    assert(crate::http::headers_view(headers@) + Seq::<HeaderView>::empty()
                        =~= crate::http::headers_view(headers@));
                }
                return Some(headers);
            } else {
                proof {
                    assert(spec_parse_headers_at(s, pos as int) is None);
                }
                return None;
            }
        }
        let hline = copy_range(buf, pos, le);
        proof {
            assert(hline@ =~= s.subrange(pos as int, le as int));
        }
        match parse_header_line(&hline) {
            None => {
                return None;
            },
            Some(h) => {
                let ghost before = crate::http::headers_view(headers@);
                let ghost hv = h@;
                headers.push(h);
                proof {
                    assert(crate::http::headers_view(headers@) =~= before.push(hv));
                    let nxt = spec_parse_headers_at(s, le + 2);
                    if nxt is Some {
                        assert(before + (seq![hv] + nxt.unwrap()) =~= before.push(hv)
                            + nxt.unwrap());
                    }
                }
            },
        }
        pos = le + 2;
    }
}

/// Parses the complete head held in `buf[..end]` — request line and header
/// block — returning exactly what the grammar assigns to those bytes, and
/// `None` exactly when the grammar rejects them (a malformed request).
pub fn parse_request_head(buf: &[u8], end: usize) -> (r: Option<Request>)
    requires
        end <= buf@.len(),
    ensures
        match r {
            Some(req) => spec_parse_head(buf@.take(end as int)) == Some(req@),
            None => spec_parse_head(buf@.take(end as int)) is None,
        },
{
    let ghost s = buf@.take(end as int);
    let e = match find_crlf(buf, end, 0) {
        None => {
            return None;
        },
        Some(e) => e,
    };
    if e == 0 {
        return None;
    }
    let line = copy_range(buf, 0, e);
    proof {
        assert(line@ =~= s.subrange(0, e as int));
    }
    let (method, path, version) = match parse_request_line(&line) {
        None => {
            return None;
        },
        Some(t) => t,
    };
    match parse_header_block(buf, end, e + 2) {
        None => None,
        Some(headers) => Some(Request { method, path, version, headers }),
    }
}

/// Parses one status line (no CRLF), exactly as the grammar reads it.
fn parse_status_line(line: &Vec<u8>) -> (r: Option<(HttpVersion, u16)>)
    ensures
        r == spec_parse_status_line(line@),
{
    let n = line.len();
    proof {
        assert(line@.take(n as int) =~= line@);
    }
    let sp = match find_byte(line.as_slice(), n, 32, 0) {
        None => {
            return None;
        },
        Some(i) => i,
    };
    let vers = copy_range(line.as_slice(), 0, sp);
    let v11 = http11_vec();
    let v10 = http10_vec();
    let version = if crate::http::bytes_eq(vers.as_slice(), v11.as_slice()) {
        HttpVersion::Http11
    } else if crate::http::bytes_eq(vers.as_slice(), v10.as_slice()) {
        HttpVersion::Http10
    } else {
        return None;
    };
    if n - sp < 4 {
        return None;
    }
    let d1 = line[sp + 1];
    let d2 = line[sp + 2];
    let d3 = line[sp + 3];
    if !(48 <= d1 && d1 <= 57 && 48 <= d2 && d2 <= 57 && 48 <= d3 && d3 <= 57) {
        return None;
    }
    if sp + 4 < n {
        if line[sp + 4] != 32 {
            return None;
        }
        let reason = copy_range(line.as_slice(), sp + 5, n);
        if !check_all_value(reason.as_slice()) {
            return None;
        }
    }
    let status: u16 = 100 * ((d1 - 48) as u16) + 10 * ((d2 - 48) as u16) + ((d3 - 48) as u16);
    Some((version, status))
}

/// Parses the complete response head held in `buf[..end]` — status line and
/// header block — exactly as the grammar assigns them; `None` exactly when
/// the upstream's head is malformed. The reason phrase is checked and
/// dropped: the engine forwards response bytes untouched, so only status,
/// version and headers matter to it.
pub fn parse_response_head(buf: &[u8], end: usize) -> (r: Option<Response>)
    requires
        end <= buf@.len(),
    ensures
        match r {
            Some(resp) => spec_parse_response_head(buf@.take(end as int)) == Some(resp@),
            None => spec_parse_response_head(buf@.take(end as int)) is None,
        },
{
    let ghost s = buf@.take(end as int);
    let e = match find_crlf(buf, end, 0) {
        None => {
            return None;
        },
        Some(e) => e,
    };
    if e == 0 {
        return None;
    }
    let line = copy_range(buf, 0, e);
    proof {
        assert(line@ =~= s.subrange(0, e as int));
    }
    let (version, status) = match parse_status_line(&line) {
        None => {
            return None;
        },
        Some(t) => t,
    };
    match parse_header_block(buf, end, e + 2) {
        None => None,
        Some(headers) => Some(Response { status, version, headers }),
    }
}

// ---------------------------------------------------------------------------
// Serialization, for sending a head upstream
// ---------------------------------------------------------------------------

pub open spec fn version_bytes(v: HttpVersion) -> Seq<u8> {
    match v {
        HttpVersion::Http10 => http10_bytes(),
        HttpVersion::Http11 => http11_bytes(),
    }
}

pub open spec fn crlf_bytes() -> Seq<u8> {
    seq![13u8, 10u8]
}

/// One serialized header line: `name ": " value CRLF`.
pub open spec fn spec_serialize_header(h: HeaderView) -> Seq<u8> {
    h.name + seq![58u8, 32u8] + h.value + crlf_bytes()
}

pub open spec fn spec_serialize_headers(hs: Seq<HeaderView>) -> Seq<u8>
    decreases hs.len(),
{
    if hs.len() == 0 {
        Seq::empty()
    } else {
        spec_serialize_headers(hs.drop_last()) + spec_serialize_header(hs.last())
    }
}

/// The whole head on the wire: request line, header lines, blank line.
pub open spec fn spec_serialize_head(r: ReqView) -> Seq<u8> {
    r.method + seq![32u8] + r.path + seq![32u8] + version_bytes(r.version) + crlf_bytes()
        + spec_serialize_headers(r.headers) + crlf_bytes()
}

fn append_bytes(out: &mut Vec<u8>, v: &[u8])
    ensures
        final(out)@ == old(out)@ + v@,
{
    let ghost before = out@;
    let mut i: usize = 0;
    while i < v.len()
        invariant
            0 <= i <= v@.len(),
            out@ == before + v@.take(i as int),
        decreases v@.len() - i,
    {
        out.push(v[i]);
        assert(out@ =~= before + v@.take(i + 1));
        i += 1;
    }
    assert(before + v@.take(v@.len() as int) =~= before + v@);
}

/// Writes the request head exactly as `spec_serialize_head` lays it out.
pub fn serialize_request_head(req: &Request) -> (out: Vec<u8>)
    ensures
        out@ == spec_serialize_head(req@),
{
    let mut out: Vec<u8> = Vec::new();
    append_bytes(&mut out, req.method.as_slice());
    out.push(32);
    append_bytes(&mut out, req.path.as_slice());
    out.push(32);
    let vers = match req.version {
        HttpVersion::Http11 => http11_vec(),
        HttpVersion::Http10 => http10_vec(),
    };
    append_bytes(&mut out, vers.as_slice());
    out.push(13);
    out.push(10);
    proof {
        assert(out@ =~= req@.method + seq![32u8] + req@.path + seq![32u8] + version_bytes(
            req@.version,
        ) + crlf_bytes());
    }
    let ghost prefix = out@;
    proof {
        assert(crate::http::headers_view(req.headers@).take(0) =~= Seq::<HeaderView>::empty());
        assert(prefix + spec_serialize_headers(Seq::<HeaderView>::empty()) =~= prefix);
    }
    let n = req.headers.len();
    let mut i: usize = 0;
    while i < n
        invariant
            n == req.headers@.len(),
            0 <= i <= n,
            out@ == prefix + spec_serialize_headers(
                crate::http::headers_view(req.headers@).take(i as int),
            ),
        decreases n - i,
    {
        let ghost hs = crate::http::headers_view(req.headers@);
        let ghost before = out@;
        append_bytes(&mut out, req.headers[i].name.as_slice());
        out.push(58);
        out.push(32);
        append_bytes(&mut out, req.headers[i].value.as_slice());
        out.push(13);
        out.push(10);
        proof {
            assert(out@ =~= before + spec_serialize_header(hs[i as int]));
            assert(hs.take(i + 1).drop_last() =~= hs.take(i as int));
            assert(hs.take(i + 1).last() == hs[i as int]);
            assert(out@ =~= prefix + spec_serialize_headers(hs.take(i + 1)));
        }
        i += 1;
    }
    out.push(13);
    out.push(10);
    proof {
        assert(crate::http::headers_view(req.headers@).take(n as int) =~= crate::http::headers_view(
            req.headers@,
        ));
        assert(out@ =~= spec_serialize_head(req@));
    }
    out
}

// ---------------------------------------------------------------------------
// The serializer and the grammar are inverse
// ---------------------------------------------------------------------------

/// A header the serializer can frame: nonempty token name, printable value.
pub open spec fn wf_header_view(h: HeaderView) -> bool {
    0 < h.name.len() && all_token(h.name) && all_value(h.value)
}

/// A head the serializer can frame unambiguously.
pub open spec fn wf_head_view(r: ReqView) -> bool {
    &&& 0 < r.method.len() && all_token(r.method)
    &&& 0 < r.path.len() && all_path(r.path)
    &&& forall|k: int| 0 <= k < r.headers.len() ==> wf_header_view(#[trigger] r.headers[k])
}

proof fn lemma_find_byte_exact(s: Seq<u8>, b: u8, from: int, e: int)
    requires
        0 <= from <= e < s.len(),
        s[e] == b,
        forall|i: int| from <= i < e ==> s[i] != b,
    ensures
        spec_find(s, b, from) == Some(e),
    decreases e - from,
{
    if from < e {
        lemma_find_byte_exact(s, b, from + 1, e);
    }
}

proof fn lemma_find_crlf_exact(s: Seq<u8>, from: int, e: int)
    requires
        0 <= from <= e,
        e + 2 <= s.len(),
        s[e] == 13 && s[e + 1] == 10,
        forall|i: int| from <= i < e ==> s[i] != 13,
    ensures
        spec_find_crlf(s, from) == Some(e),
    decreases e - from,
{
    if from < e {
        lemma_find_crlf_exact(s, from + 1, e);
    }
}

/// `spec_serialize_headers` taken apart at the front instead of the back.
proof fn lemma_serialize_headers_front(hs: Seq<HeaderView>)
    requires
        hs.len() > 0,
    ensures
        spec_serialize_headers(hs) == spec_serialize_header(hs[0]) + spec_serialize_headers(
            hs.drop_first(),
        ),
    decreases hs.len(),
{
    if hs.len() == 1 {
        assert(hs.drop_last() =~= Seq::<HeaderView>::empty());
        assert(hs.drop_first() =~= Seq::<HeaderView>::empty());
        assert(Seq::<u8>::empty() + spec_serialize_header(hs.last()) =~= spec_serialize_header(
            hs[0],
        ) + Seq::<u8>::empty());
    } else {
        let front = hs.drop_last();
        lemma_serialize_headers_front(front);
        assert(front[0] == hs[0]);
        assert(front.drop_first() =~= hs.drop_first().drop_last());
        assert(hs.drop_first().last() == hs.last());
        assert((spec_serialize_header(hs[0]) + spec_serialize_headers(hs.drop_first().drop_last()))
            + spec_serialize_header(hs.last()) =~= spec_serialize_header(hs[0]) + (
        spec_serialize_headers(hs.drop_first().drop_last()) + spec_serialize_header(
            hs.drop_first().last(),
        )));
    }
}

proof fn lemma_headers_round_trip(s: Seq<u8>, pos: int, hs: Seq<HeaderView>)
    requires
        0 <= pos <= s.len(),
        s.subrange(pos, s.len() as int) == spec_serialize_headers(hs) + crlf_bytes(),
        forall|k: int| 0 <= k < hs.len() ==> wf_header_view(#[trigger] hs[k]),
    ensures
        spec_parse_headers_at(s, pos) == Some(hs),
    decreases hs.len(),
{
    let tail = s.subrange(pos, s.len() as int);
    if hs.len() == 0 {
        assert(spec_serialize_headers(hs) + crlf_bytes() =~= crlf_bytes());
        assert(s[pos] == 13 && s[pos + 1] == 10);
        lemma_find_crlf_exact(s, pos, pos);
        assert(spec_parse_headers_at(s, pos) == Some(Seq::<HeaderView>::empty()));
        assert(Seq::<HeaderView>::empty() =~= hs);
    } else {
        let h = hs[0];
        let rest = hs.drop_first();
        lemma_serialize_headers_front(hs);
        let line = h.name + seq![58u8, 32u8] + h.value;
        let nl = h.name.len() as int;
        let ll = line.len() as int;
        assert(spec_serialize_header(h) =~= line + crlf_bytes());
        assert(spec_serialize_headers(hs) == (line + crlf_bytes()) + spec_serialize_headers(rest));
        let grouped = ((line + crlf_bytes()) + spec_serialize_headers(rest)) + crlf_bytes();
        assert(tail == grouped);
        assert(tail.len() == s.len() - pos);
        assert(grouped.len() == ll + 2 + spec_serialize_headers(rest).len() + 2);
        assert(s.len() - pos >= ll + 4);
        assert forall|k: int| 0 <= k < ll + 2 implies tail[k] == (line + crlf_bytes())[k] by {
            assert(grouped[k] == ((line + crlf_bytes()) + spec_serialize_headers(rest))[k]);
            assert(((line + crlf_bytes()) + spec_serialize_headers(rest))[k] == (line
                + crlf_bytes())[k]);
        }
        let e = pos + ll;
        assert forall|i: int| pos <= i < e implies s[i] != 13 by {
            assert(s[i] == tail[i - pos]);
            assert(tail[i - pos] == (line + crlf_bytes())[i - pos]);
            assert((line + crlf_bytes())[i - pos] == line[i - pos]);
            if i - pos < nl {
                assert(line[i - pos] == h.name[i - pos]);
            } else if i - pos == nl {
                assert(line[i - pos] == 58);
            } else if i - pos == nl + 1 {
                assert(line[i - pos] == 32);
            } else {
                assert(line[i - pos] == h.value[i - pos - nl - 2]);
            }
        }
        assert(s[e] == tail[ll] && tail[ll] == (line + crlf_bytes())[ll]);
        assert(s[e + 1] == tail[ll + 1] && tail[ll + 1] == (line + crlf_bytes())[ll + 1]);
        assert(s[e] == 13 && s[e + 1] == 10);
        lemma_find_crlf_exact(s, pos, e);
        let lsub = s.subrange(pos, e);
        assert forall|k: int| 0 <= k < ll implies lsub[k] == line[k] by {
            assert(lsub[k] == s[pos + k]);
            assert(s[pos + k] == tail[k]);
            assert(tail[k] == (line + crlf_bytes())[k]);
        }
        assert(lsub =~= line);
        // The header line parses back to h.
        assert forall|i: int| 0 <= i < nl implies line[i] != 58 by {
            assert(line[i] == h.name[i]);
        }
        assert(line[nl] == 58);
        lemma_find_byte_exact(line, 58, 0, nl);
        assert(line.subrange(0, nl) =~= h.name);
        assert(line[nl + 1] == 32);
        assert(line.subrange(nl + 2, ll) =~= h.value);
        assert(spec_parse_header_line(line) == Some(h));
        // The remaining block is the remaining headers.
        assert(s.subrange(e + 2, s.len() as int) =~= spec_serialize_headers(rest)
            + crlf_bytes()) by {
            assert forall|k: int|
                0 <= k < s.len() - (e + 2) implies s.subrange(e + 2, s.len() as int)[k] == (
            spec_serialize_headers(rest) + crlf_bytes())[k] by {
                assert(s.subrange(e + 2, s.len() as int)[k] == s[e + 2 + k]);
                assert(s[e + 2 + k] == tail[ll + 2 + k]);
                assert(tail[ll + 2 + k] == grouped[ll + 2 + k]);
                assert(grouped[ll + 2 + k] == (if ll + 2 + k < ((line + crlf_bytes())
                    + spec_serialize_headers(rest)).len() {
                    ((line + crlf_bytes()) + spec_serialize_headers(rest))[ll + 2 + k]
                } else {
                    crlf_bytes()[ll + 2 + k - ((line + crlf_bytes())
                        + spec_serialize_headers(rest)).len()]
                }));
            }
        }
        lemma_headers_round_trip(s, e + 2, rest);
        assert(seq![h] + rest =~= hs);
    }
}

/// Round trip: a well-formed head laid out by the serializer parses back to
/// exactly the same head — the grammar and the serializer agree.
pub proof fn lemma_parse_serialize_round_trip(r: ReqView)
    requires
        wf_head_view(r),
    ensures
        spec_parse_head(spec_serialize_head(r)) == Some(r),
{
    let s = spec_serialize_head(r);
    let ml = r.method.len() as int;
    let pl = r.path.len() as int;
    let line = r.method + seq![32u8] + r.path + seq![32u8] + version_bytes(r.version);
    let ll = line.len() as int;
    assert(version_bytes(r.version).len() == 8);
    assert(s =~= line + crlf_bytes() + (spec_serialize_headers(r.headers) + crlf_bytes()));
    // The first CRLF ends the request line: nothing before it is a CR.
    assert forall|i: int| 0 <= i < ll implies s[i] != 13 by {
        assert(s[i] == line[i]);
        if i < ml {
            assert(line[i] == r.method[i]);
        } else if i == ml {
            assert(line[i] == 32);
        } else if i < ml + 1 + pl {
            assert(line[i] == r.path[i - ml - 1]);
        } else if i == ml + 1 + pl {
            assert(line[i] == 32);
        } else {
            assert(line[i] == version_bytes(r.version)[i - ml - 2 - pl]);
        }
    }
    assert(s[ll] == 13 && s[ll + 1] == 10);
    lemma_find_crlf_exact(s, 0, ll);
    assert(s.subrange(0, ll) =~= line);
    // The request line parses back to method, path and version.
    assert forall|i: int| 0 <= i < ml implies line[i] != 32 by {
        assert(line[i] == r.method[i]);
    }
    assert(line[ml] == 32);
    lemma_find_byte_exact(line, 32, 0, ml);
    assert forall|i: int| ml + 1 <= i < ml + 1 + pl implies line[i] != 32 by {
        assert(line[i] == r.path[i - ml - 1]);
    }
    assert(line[ml + 1 + pl] == 32);
    lemma_find_byte_exact(line, 32, ml + 1, ml + 1 + pl);
    assert(line.subrange(0, ml) =~= r.method);
    assert(line.subrange(ml + 1, ml + 1 + pl) =~= r.path);
    assert(line.subrange(ml + 2 + pl, ll) =~= version_bytes(r.version));
    assert(http10_bytes()[7] != http11_bytes()[7]);
    assert(spec_parse_request_line(line) == Some((r.method, r.path, r.version)));
    // The header block parses back to the headers.
    assert(s.subrange(ll + 2, s.len() as int) =~= spec_serialize_headers(r.headers)
        + crlf_bytes());
    lemma_headers_round_trip(s, ll + 2, r.headers);
}

} // verus!
