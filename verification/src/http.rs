//! A minimal HTTP/1.1 head codec, used only for the upgrade handshake.
//!
//! The decoder is streaming: it parses the head line by line once the
//! bytes for a line have arrived, and asks for more bytes until the
//! empty line that ends the head is buffered. Header names are compared
//! case-insensitively; a header value is the rest of its line with
//! leading spaces and tabs removed.

use vstd::prelude::*;

use crate::error::{HttpDecodeError, HttpEncodeError, HttpParseError};
use crate::mask::{append_bytes, copy_bytes, copy_range};

verus! {

/// An HTTP header: a name and a value.
#[derive(Debug, PartialEq, Eq)]
pub struct Header {
    /// The header name.
    pub name: Vec<u8>,
    /// The header value.
    pub value: Vec<u8>,
}

/// The headers of a parsed head, as pairs of byte strings.
pub open spec fn headers_model(hs: Seq<Header>) -> Seq<(Seq<u8>, Seq<u8>)> {
    Seq::new(hs.len(), |i: int| (hs[i].name@, hs[i].value@))
}

/// The lower-case form of an ASCII byte.
pub open spec fn ascii_lower(b: u8) -> u8 {
    if 65 <= b <= 90 {
        (b + 32) as u8
    } else {
        b
    }
}

/// ASCII case-insensitive equality of two byte strings.
pub open spec fn ascii_eq_ci(a: Seq<u8>, b: Seq<u8>) -> bool {
    a.len() == b.len() && (forall|i: int| 0 <= i < a.len() ==> ascii_lower(a[i]) == ascii_lower(b[i]))
}

/// Compares two byte strings ASCII case-insensitively.
pub fn eq_ignore_ascii_case(a: &Vec<u8>, b: &Vec<u8>) -> (r: bool)
    ensures
        r == ascii_eq_ci(a@, b@),
{
    if a.len() != b.len() {
        return false;
    }
    let n = a.len();
    let mut i: usize = 0;
    while i < n
        invariant
            i <= n,
            n == a@.len() == b@.len(),
            forall|j: int| 0 <= j < i ==> ascii_lower(a@[j]) == ascii_lower(b@[j]),
        decreases n - i,
    {
        let ab = a[i];
        let bb = b[i];
        let al = if 65 <= ab && ab <= 90 {
            ab + 32
        } else {
            ab
        };
        let bl = if 65 <= bb && bb <= 90 {
            bb + 32
        } else {
            bb
        };
        if al != bl {
            return false;
        }
        i += 1;
    }
    true
}

/// The value of the first header whose name equals `name` ASCII
/// case-insensitively, if any.
pub open spec fn header_lookup(hs: Seq<Header>, name: Seq<u8>) -> Option<Seq<u8>>
    decreases hs.len(),
{
    if hs.len() == 0 {
        None
    } else if ascii_eq_ci(hs[0].name@, name) {
        Some(hs[0].value@)
    } else {
        header_lookup(hs.drop_first(), name)
    }
}

/// The same lookup over modelled headers.
pub open spec fn lookup_model(hs: Seq<(Seq<u8>, Seq<u8>)>, name: Seq<u8>) -> Option<Seq<u8>>
    decreases hs.len(),
{
    if hs.len() == 0 {
        None
    } else if ascii_eq_ci(hs[0].0, name) {
        Some(hs[0].1)
    } else {
        lookup_model(hs.drop_first(), name)
    }
}

/// Looking a header up is the same on the headers and on their model.
pub proof fn lemma_lookup_model(hs: Seq<Header>, name: Seq<u8>)
    ensures
        header_lookup(hs, name) == lookup_model(headers_model(hs), name),
    decreases hs.len(),
{
    if hs.len() > 0 {
        assert(headers_model(hs).drop_first() =~~= headers_model(hs.drop_first()));
        lemma_lookup_model(hs.drop_first(), name);
    }
}

/// Looks a header up by name, ASCII case-insensitively, and hands its
/// value out as a fresh vector.
pub fn header_value(headers: &Vec<Header>, name: &Vec<u8>) -> (r: Option<Vec<u8>>)
    ensures
        match header_lookup(headers@, name@) {
            Some(v) => r matches Some(rv) && rv@ == v,
            None => r is None,
        },
{
    let n = headers.len();
    proof {
        assert(headers@.skip(0) =~~= headers@);
    }
    let mut i: usize = 0;
    while i < n
        invariant
            i <= n,
            n == headers@.len(),
            header_lookup(headers@, name@) == header_lookup(headers@.skip(i as int), name@),
        decreases n - i,
    {
        proof {
            assert(headers@.skip(i as int)[0] == headers@[i as int]);
            assert(headers@.skip(i as int).drop_first() =~~= headers@.skip(i + 1));
        }
        if eq_ignore_ascii_case(&headers[i].name, name) {
            return Some(copy_bytes(&headers[i].value));
        }
        i += 1;
    }
    proof {
        assert(headers@.skip(n as int).len() == 0);
    }
    None
}

/// The first position at or after `from` where a CRLF pair starts.
pub open spec fn find_crlf(s: Seq<u8>, from: int) -> Option<int>
    decreases s.len() - from,
    when 0 <= from
{
    if from + 2 > s.len() {
        None
    } else if s[from] == 13 && s[from + 1] == 10 {
        Some(from)
    } else {
        find_crlf(s, from + 1)
    }
}

/// Scans for the first CRLF pair at or after `from`.
pub fn scan_crlf(s: &Vec<u8>, from: usize) -> (r: Option<usize>)
    requires
        from <= s@.len(),
    ensures
        match find_crlf(s@, from as int) {
            Some(i) => r matches Some(ri) && ri == i && from <= i && i + 2 <= s@.len(),
            None => r is None,
        },
{
    let n = s.len();
    let mut i: usize = from;
    loop
        invariant
            from <= i <= n,
            n == s@.len(),
            find_crlf(s@, from as int) == find_crlf(s@, i as int),
        ensures
            match find_crlf(s@, from as int) {
                Some(j) => i == j && s@[j] == 13 && s@[j + 1] == 10 && i + 2 <= n,
                None => i + 2 > n,
            },
        decreases n - i,
    {
        if n - i < 2 {
            break ;
        }
        if s[i] == 13 && s[i + 1] == 10 {
            break ;
        }
        i += 1;
    }
    if n - i < 2 {
        None
    } else {
        Some(i)
    }
}

/// The first position at or after `from` whose byte is neither a space
/// nor a horizontal tab.
pub open spec fn skip_ows(s: Seq<u8>, from: int) -> int
    decreases s.len() - from,
    when 0 <= from
{
    if from >= s.len() {
        from
    } else if s[from] == 32 || s[from] == 9 {
        skip_ows(s, from + 1)
    } else {
        from
    }
}

/// Scans past spaces and horizontal tabs.
pub fn scan_ows(s: &Vec<u8>, from: usize) -> (r: usize)
    requires
        from <= s@.len(),
    ensures
        r == skip_ows(s@, from as int),
        from <= r <= s@.len(),
{
    let n = s.len();
    let mut i: usize = from;
    while i < n && (s[i] == 32 || s[i] == 9)
        invariant
            from <= i <= n,
            n == s@.len(),
            skip_ows(s@, from as int) == skip_ows(s@, i as int),
        decreases n - i,
    {
        i += 1;
    }
    i
}

/// The first position at or after `from` holding byte `b`.
pub open spec fn find_byte(s: Seq<u8>, from: int, b: u8) -> Option<int>
    decreases s.len() - from,
    when 0 <= from
{
    if from >= s.len() {
        None
    } else if s[from] == b {
        Some(from)
    } else {
        find_byte(s, from + 1, b)
    }
}

/// Scans for the first occurrence of byte `b` at or after `from`.
pub fn scan_byte(s: &Vec<u8>, from: usize, b: u8) -> (r: Option<usize>)
    requires
        from <= s@.len(),
    ensures
        match find_byte(s@, from as int, b) {
            Some(i) => r matches Some(ri) && ri == i && from <= i && i < s@.len() && s@[i] == b,
            None => r is None,
        },
{
    let n = s.len();
    let mut i: usize = from;
    loop
        invariant
            from <= i <= n,
            n == s@.len(),
            find_byte(s@, from as int, b) == find_byte(s@, i as int, b),
        ensures
            match find_byte(s@, from as int, b) {
                Some(j) => i == j && s@[j] == b && i < n,
                None => i >= n,
            },
        decreases n - i,
    {
        if i >= n {
            break ;
        }
        if s[i] == b {
            break ;
        }
        i += 1;
    }
    if i >= n {
        None
    } else {
        Some(i)
    }
}

/// The headers of `src`, copied into a fresh vector.
pub fn copy_headers(src: &Vec<Header>) -> (r: Vec<Header>)
    ensures
        headers_model(r@) =~~= headers_model(src@),
{
    let n = src.len();
    let mut r: Vec<Header> = Vec::new();
    let mut i: usize = 0;
    while i < n
        invariant
            i <= n,
            n == src@.len(),
            r@.len() == i,
            forall|j: int|
                0 <= j < i ==> r@[j].name@ == src@[j].name@ && r@[j].value@ == src@[j].value@,
        decreases n - i,
    {
        r.push(Header { name: copy_bytes(&src[i].name), value: copy_bytes(&src[i].value) });
        i += 1;
    }
    r
}

/// The fields of a parsed request head.
pub struct ReqFields {
    /// The request method.
    pub method: Seq<u8>,
    /// The request path.
    pub path: Seq<u8>,
    /// The minor HTTP version digit.
    pub version: u8,
    /// The headers, in order.
    pub headers: Seq<(Seq<u8>, Seq<u8>)>,
    /// The length of the head, the final empty line included.
    pub consumed: int,
}

/// The fields of a parsed response head.
pub struct RespFields {
    /// The minor HTTP version digit.
    pub version: u8,
    /// The status code.
    pub code: u16,
    /// The reason phrase; empty when missing.
    pub reason: Seq<u8>,
    /// The headers, in order.
    pub headers: Seq<(Seq<u8>, Seq<u8>)>,
    /// The length of the head, the final empty line included.
    pub consumed: int,
}

/// What parsing a request head yields.
pub enum RequestParse {
    /// The head is not complete yet.
    Incomplete,
    /// The head is malformed.
    Bad(HttpParseError),
    /// A complete head.
    Done(ReqFields),
}

/// What parsing a response head yields.
pub enum ResponseParse {
    /// The head is not complete yet.
    Incomplete,
    /// The head is malformed.
    Bad(HttpParseError),
    /// A complete head.
    Done(RespFields),
}

/// What parsing the header lines yields.
pub enum HeadersParse {
    /// The final empty line has not arrived yet.
    Incomplete,
    /// A malformed header line, or more lines than allowed.
    Bad(HttpParseError),
    /// The headers, and the position just past the final empty line.
    Done(Seq<(Seq<u8>, Seq<u8>)>, int),
}

/// A header line split at its first colon: a non-empty name, and the
/// value with leading spaces and tabs removed.
pub open spec fn parse_header_line(line: Seq<u8>) -> Option<(Seq<u8>, Seq<u8>)> {
    match find_byte(line, 0, 58) {
        None => None,
        Some(c) => if c == 0 {
            None
        } else {
            Some((line.subrange(0, c), line.subrange(skip_ows(line, c + 1), line.len() as int)))
        },
    }
}

/// A CRLF pair found by `find_crlf` lies at or after `from` and fits in
/// the bytes.
pub proof fn lemma_find_crlf_bounds(s: Seq<u8>, from: int)
    requires
        0 <= from,
    ensures
        find_crlf(s, from) matches Some(i) ==> from <= i && i + 2 <= s.len(),
    decreases s.len() - from,
{
    if from + 2 <= s.len() && !(s[from] == 13 && s[from + 1] == 10) {
        lemma_find_crlf_bounds(s, from + 1);
    }
}

/// The header lines from `from` on: an empty line ends them; each other
/// line must parse as a header, and at most `max` headers are accepted.
pub open spec fn parse_headers_spec(s: Seq<u8>, from: int, max: int) -> HeadersParse
    decreases s.len() - from,
    when 0 <= from <= s.len()
    via parse_headers_spec_decreases
{
    match find_crlf(s, from) {
        None => HeadersParse::Incomplete,
        Some(i) => {
            if i == from {
                HeadersParse::Done(Seq::empty(), from + 2)
            } else if max <= 0 {
                HeadersParse::Bad(HttpParseError::TooManyHeaders)
            } else {
                match parse_header_line(s.subrange(from, i)) {
                    None => HeadersParse::Bad(HttpParseError::Invalid),
                    Some(h) => match parse_headers_spec(s, i + 2, max - 1) {
                        HeadersParse::Done(rest, end) => HeadersParse::Done(seq![h] + rest, end),
                        other => other,
                    },
                }
            }
        },
    }
}

#[via_fn]
proof fn parse_headers_spec_decreases(s: Seq<u8>, from: int, max: int) {
    lemma_find_crlf_bounds(s, from);
}

/// True of the eight bytes `HTTP/1.` followed by a version digit.
pub open spec fn version_ok(v: Seq<u8>) -> bool {
    v.len() == 8 && v[0] == 72 && v[1] == 84 && v[2] == 84 && v[3] == 80 && v[4] == 47 && v[5]
        == 49 && v[6] == 46 && 48 <= v[7] <= 57
}

/// A request line `METHOD SP PATH SP HTTP/1.x` split into its parts.
pub open spec fn parse_request_line(line: Seq<u8>) -> Option<(Seq<u8>, Seq<u8>, u8)> {
    match find_byte(line, 0, 32) {
        None => None,
        Some(sp1) => if sp1 == 0 {
            None
        } else {
            match find_byte(line, sp1 + 1, 32) {
                None => None,
                Some(sp2) => if sp2 <= sp1 + 1 {
                    None
                } else {
                    let ver = line.subrange(sp2 + 1, line.len() as int);
                    if version_ok(ver) {
                        Some(
                            (
                                line.subrange(0, sp1),
                                line.subrange(sp1 + 1, sp2),
                                (ver[7] - 48) as u8,
                            ),
                        )
                    } else {
                        None
                    }
                },
            }
        },
    }
}

/// A status line `HTTP/1.x SP CODE [SP REASON]` split into its parts;
/// the code is three digits, and the reason may be absent.
pub open spec fn parse_response_line(line: Seq<u8>) -> Option<(u8, u16, Seq<u8>)> {
    if line.len() < 12 {
        None
    } else {
        let ver = line.subrange(0, 8);
        if !version_ok(ver) {
            None
        } else if line[8] != 32 {
            None
        } else if !(48 <= line[9] <= 57 && 48 <= line[10] <= 57 && 48 <= line[11] <= 57) {
            None
        } else {
            let code = ((line[9] - 48) * 100 + (line[10] - 48) * 10 + (line[11] - 48)) as u16;
            if line.len() == 12 {
                Some(((ver[7] - 48) as u8, code, Seq::<u8>::empty()))
            } else if line[12] == 32 {
                Some(((ver[7] - 48) as u8, code, line.subrange(13, line.len() as int)))
            } else {
                None
            }
        }
    }
}

/// A complete request head: its request line, then its header lines.
pub open spec fn parse_request_spec(s: Seq<u8>, max: int) -> RequestParse {
    match find_crlf(s, 0) {
        None => RequestParse::Incomplete,
        Some(i) => match parse_request_line(s.subrange(0, i)) {
            None => RequestParse::Bad(HttpParseError::Invalid),
            Some(parts) => match parse_headers_spec(s, i + 2, max) {
                HeadersParse::Incomplete => RequestParse::Incomplete,
                HeadersParse::Bad(e) => RequestParse::Bad(e),
                HeadersParse::Done(hs, end) => RequestParse::Done(
                    ReqFields {
                        method: parts.0,
                        path: parts.1,
                        version: parts.2,
                        headers: hs,
                        consumed: end,
                    },
                ),
            },
        },
    }
}

/// A complete response head: its status line, then its header lines.
pub open spec fn parse_response_spec(s: Seq<u8>, max: int) -> ResponseParse {
    match find_crlf(s, 0) {
        None => ResponseParse::Incomplete,
        Some(i) => match parse_response_line(s.subrange(0, i)) {
            None => ResponseParse::Bad(HttpParseError::Invalid),
            Some(parts) => match parse_headers_spec(s, i + 2, max) {
                HeadersParse::Incomplete => ResponseParse::Incomplete,
                HeadersParse::Bad(e) => ResponseParse::Bad(e),
                HeadersParse::Done(hs, end) => ResponseParse::Done(
                    RespFields {
                        version: parts.0,
                        code: parts.1,
                        reason: parts.2,
                        headers: hs,
                        consumed: end,
                    },
                ),
            },
        },
    }
}

/// Splits one header line at its first colon.
fn parse_header_line_exec(line: &Vec<u8>) -> (r: Option<Header>)
    ensures
        match parse_header_line(line@) {
            Some(h) => r matches Some(rh) && rh.name@ == h.0 && rh.value@ == h.1,
            None => r is None,
        },
{
    let n = line.len();
    match scan_byte(line, 0, 58) {
        None => None,
        Some(c) => {
            if c == 0 {
                return None;
            }
            let name = copy_range(line, 0, c);
            let vstart = scan_ows(line, c + 1);
            let value = copy_range(line, vstart, n);
            Some(Header { name, value })
        },
    }
}

/// Splits one request line into method, path and version digit.
fn parse_request_line_exec(line: &Vec<u8>) -> (r: Option<(Vec<u8>, Vec<u8>, u8)>)
    ensures
        match parse_request_line(line@) {
            Some(p) => r matches Some(rp) && rp.0@ == p.0 && rp.1@ == p.1 && rp.2 == p.2,
            None => r is None,
        },
{
    let n = line.len();
    let sp1 = match scan_byte(line, 0, 32) {
        None => {
            return None;
        },
        Some(sp1) => sp1,
    };
    if sp1 == 0 {
        return None;
    }
    let sp2 = match scan_byte(line, sp1 + 1, 32) {
        None => {
            return None;
        },
        Some(sp2) => sp2,
    };
    if sp2 <= sp1 + 1 {
        return None;
    }
    let ver = copy_range(line, sp2 + 1, n);
    if !(ver.len() == 8 && ver[0] == 72 && ver[1] == 84 && ver[2] == 84 && ver[3] == 80 && ver[4]
        == 47 && ver[5] == 49 && ver[6] == 46 && 48 <= ver[7] && ver[7] <= 57) {
        return None;
    }
    let method = copy_range(line, 0, sp1);
    let path = copy_range(line, sp1 + 1, sp2);
    Some((method, path, ver[7] - 48))
}

/// Splits one status line into version digit, code and reason.
fn parse_response_line_exec(line: &Vec<u8>) -> (r: Option<(u8, u16, Vec<u8>)>)
    ensures
        match parse_response_line(line@) {
            Some(p) => r matches Some(rp) && rp.0 == p.0 && rp.1 == p.1 && rp.2@ == p.2,
            None => r is None,
        },
{
    if line.len() < 12 {
        return None;
    }
    let ver = copy_range(line, 0, 8);
    if !(ver[0] == 72 && ver[1] == 84 && ver[2] == 84 && ver[3] == 80 && ver[4] == 47 && ver[5]
        == 49 && ver[6] == 46 && 48 <= ver[7] && ver[7] <= 57) {
        return None;
    }
    if line[8] != 32 {
        return None;
    }
    if !(48 <= line[9] && line[9] <= 57 && 48 <= line[10] && line[10] <= 57 && 48 <= line[11]
        && line[11] <= 57) {
        return None;
    }
    let code: u16 = ((line[9] - 48) as u16) * 100 + ((line[10] - 48) as u16) * 10 + ((line[11]
        - 48) as u16);
    if line.len() == 12 {
        proof {
            assert(line@.subrange(0, 8) =~= ver@);
        }
        return Some((ver[7] - 48, code, Vec::new()));
    }
    if line[12] != 32 {
        return None;
    }
    let reason = copy_range(line, 13, line.len());
    proof {
        assert(line@.subrange(0, 8) =~= ver@);
    }
    Some((ver[7] - 48, code, reason))
}

/// Parses the header lines from `from` on, up to `max` of them.
fn parse_headers_exec(s: &Vec<u8>, from: usize, max: usize) -> (r: Result<
    Option<(Vec<Header>, usize)>,
    HttpParseError,
>)
    requires
        from <= s@.len(),
    ensures
        match parse_headers_spec(s@, from as int, max as int) {
            HeadersParse::Incomplete => r matches Ok(o) && o is None,
            HeadersParse::Bad(e) => r matches Err(e2) && e2 == e,
            HeadersParse::Done(hs, end) => r matches Ok(o) && o matches Some((v, e2))
                && headers_model(v@) == hs && e2 == end && end <= s@.len(),
        },
{
    let n = s.len();
    let mut cur: usize = from;
    let mut left: usize = max;
    let mut acc: Vec<Header> = Vec::new();
    proof {
        assert(headers_model(acc@) =~~= Seq::<(Seq<u8>, Seq<u8>)>::empty());
    }
    loop
        invariant
            from <= cur <= s@.len(),
            n == s@.len(),
            match parse_headers_spec(s@, cur as int, left as int) {
                HeadersParse::Incomplete => parse_headers_spec(s@, from as int, max as int)
                    is Incomplete,
                HeadersParse::Bad(e) => parse_headers_spec(s@, from as int, max as int)
                    == HeadersParse::Bad(e),
                HeadersParse::Done(rest, end) => parse_headers_spec(s@, from as int, max as int)
                    == HeadersParse::Done(headers_model(acc@) + rest, end),
            },
        decreases s@.len() - cur,
    {
        let i = match scan_crlf(s, cur) {
            None => {
                return Ok(None);
            },
            Some(i) => i,
        };
        if i == cur {
            proof {
                assert(headers_model(acc@) + Seq::<(Seq<u8>, Seq<u8>)>::empty() =~~= headers_model(
                    acc@,
                ));
            }
            return Ok(Some((acc, cur + 2)));
        }
        if left == 0 {
            return Err(HttpParseError::TooManyHeaders);
        }
        let line = copy_range(s, cur, i);
        let h = match parse_header_line_exec(&line) {
            None => {
                return Err(HttpParseError::Invalid);
            },
            Some(h) => h,
        };
        let ghost prev_acc = acc@;
        acc.push(h);
        proof {
            assert(headers_model(acc@) =~~= headers_model(prev_acc).push((h.name@, h.value@)));
            let hm = parse_header_line(s@.subrange(cur as int, i as int)).unwrap();
            assert(headers_model(prev_acc).push(hm) + seq_rest_of(
                parse_headers_spec(s@, i + 2, left - 1),
            ) =~~= headers_model(prev_acc) + (seq![hm] + seq_rest_of(
                parse_headers_spec(s@, i + 2, left - 1),
            )));
        }
        left = left - 1;
        cur = i + 2;
    }
}

/// The headers of a parse outcome; empty elsewhere.
pub open spec fn seq_rest_of(p: HeadersParse) -> Seq<(Seq<u8>, Seq<u8>)> {
    match p {
        HeadersParse::Done(hs, _) => hs,
        _ => Seq::empty(),
    }
}

/// A parsed HTTP request head.
#[derive(Debug)]
pub struct Request {
    /// The request method, such as `GET`.
    pub method: Vec<u8>,
    /// The request path.
    pub path: Vec<u8>,
    /// The request minor version digit, such as `1` for `HTTP/1.1`.
    pub version: u8,
    /// The request headers.
    pub headers: Vec<Header>,
}

impl Request {
    /// Builds a request head from its parts.
    pub fn new(method: Vec<u8>, path: Vec<u8>, version: u8, headers: Vec<Header>) -> (r: Self)
        ensures
            r.method@ == method@,
            r.path@ == path@,
            r.version == version,
            r.headers@ == headers@,
    {
        Request { method, path, version, headers }
    }

    /// The request method.
    pub fn method(&self) -> (r: &Vec<u8>)
        ensures
            r@ == self.method@,
    {
        &self.method
    }

    /// The request path.
    pub fn path(&self) -> (r: &Vec<u8>)
        ensures
            r@ == self.path@,
    {
        &self.path
    }

    /// The request minor version digit.
    pub fn version(&self) -> (r: u8)
        ensures
            r == self.version,
    {
        self.version
    }

    /// The request headers.
    pub fn headers(&self) -> (r: &Vec<Header>)
        ensures
            r@ == self.headers@,
    {
        &self.headers
    }
}

/// A parsed HTTP response head.
#[derive(Debug)]
pub struct Response {
    /// The response minor version digit, such as `1` for `HTTP/1.1`.
    pub version: u8,
    /// The response code, such as `200`.
    pub code: u16,
    /// The response reason-phrase; empty when it was missing.
    pub reason: Vec<u8>,
    /// The response headers.
    pub headers: Vec<Header>,
}

impl Response {
    /// Builds a response head from its parts.
    pub fn new(version: u8, code: u16, reason: Vec<u8>, headers: Vec<Header>) -> (r: Self)
        ensures
            r.version == version,
            r.code == code,
            r.reason@ == reason@,
            r.headers@ == headers@,
    {
        Response { version, code, reason, headers }
    }

    /// The response minor version digit.
    pub fn version(&self) -> (r: u8)
        ensures
            r == self.version,
    {
        self.version
    }

    /// The response code.
    pub fn code(&self) -> (r: u16)
        ensures
            r == self.code,
    {
        self.code
    }

    /// The response reason-phrase.
    pub fn reason(&self) -> (r: &Vec<u8>)
        ensures
            r@ == self.reason@,
    {
        &self.reason
    }

    /// The response headers.
    pub fn headers(&self) -> (r: &Vec<Header>)
        ensures
            r@ == self.headers@,
    {
        &self.headers
    }
}

/// The streaming request-head decoder, accepting at most `N` headers.
#[derive(Debug)]
pub struct InRequestCodec<const N: usize> {}

impl<const N: usize> InRequestCodec<N> {
    /// Creates the decoder.
    pub fn new() -> (r: Self) {
        InRequestCodec {}
    }

    /// Decodes the request head at the start of `src`, if it is complete:
    /// `Ok(None)` asks for more bytes.
    pub fn decode(&self, src: &Vec<u8>) -> (r: Result<Option<(Request, usize)>, HttpDecodeError>)
        ensures
            match parse_request_spec(src@, N as int) {
                RequestParse::Incomplete => r matches Ok(o) && o is None,
                RequestParse::Bad(e) => r matches Err(e2) && e2 == HttpDecodeError::Parse(e),
                RequestParse::Done(f) => r matches Ok(o) && o matches Some((req, n)) && {
                    &&& req.method@ == f.method
                    &&& req.path@ == f.path
                    &&& req.version == f.version
                    &&& headers_model(req.headers@) == f.headers
                    &&& n == f.consumed
                    &&& 0 <= f.consumed <= src@.len()
                },
            },
    {
        let srclen = src.len();
        let i = match scan_crlf(src, 0) {
            None => {
                return Ok(None);
            },
            Some(i) => i,
        };
        let line = copy_range(src, 0, i);
        let parts = match parse_request_line_exec(&line) {
            None => {
                return Err(HttpDecodeError::Parse(HttpParseError::Invalid));
            },
            Some(parts) => parts,
        };
        match parse_headers_exec(src, i + 2, N) {
            Ok(None) => Ok(None),
            Err(e) => Err(HttpDecodeError::Parse(e)),
            Ok(Some((headers, end))) => Ok(
                Some((Request::new(parts.0, parts.1, parts.2, headers), end)),
            ),
        }
    }
}

/// The streaming response-head decoder, accepting at most `N` headers.
#[derive(Debug)]
pub struct InResponseCodec<const N: usize> {}

impl<const N: usize> InResponseCodec<N> {
    /// Creates the decoder.
    pub fn new() -> (r: Self) {
        InResponseCodec {}
    }

    /// Decodes the response head at the start of `src`, if it is
    /// complete: `Ok(None)` asks for more bytes.
    pub fn decode(&self, src: &Vec<u8>) -> (r: Result<Option<(Response, usize)>, HttpDecodeError>)
        ensures
            match parse_response_spec(src@, N as int) {
                ResponseParse::Incomplete => r matches Ok(o) && o is None,
                ResponseParse::Bad(e) => r matches Err(e2) && e2 == HttpDecodeError::Parse(e),
                ResponseParse::Done(f) => r matches Ok(o) && o matches Some((resp, n)) && {
                    &&& resp.version == f.version
                    &&& resp.code == f.code
                    &&& resp.reason@ == f.reason
                    &&& headers_model(resp.headers@) == f.headers
                    &&& n == f.consumed
                    &&& 0 <= f.consumed <= src@.len()
                },
            },
    {
        let srclen = src.len();
        let i = match scan_crlf(src, 0) {
            None => {
                return Ok(None);
            },
            Some(i) => i,
        };
        let line = copy_range(src, 0, i);
        let parts = match parse_response_line_exec(&line) {
            None => {
                return Err(HttpDecodeError::Parse(HttpParseError::Invalid));
            },
            Some(parts) => parts,
        };
        match parse_headers_exec(src, i + 2, N) {
            Ok(None) => Ok(None),
            Err(e) => Err(HttpDecodeError::Parse(e)),
            Ok(Some((headers, end))) => Ok(
                Some((Response::new(parts.0, parts.1, parts.2, headers), end)),
            ),
        }
    }
}

/// One encoded header line: `name: value` and a CRLF.
pub open spec fn header_line_bytes(h: (Seq<u8>, Seq<u8>)) -> Seq<u8> {
    h.0 + seq![58u8, 32u8] + h.1 + seq![13u8, 10u8]
}

/// The encoded header lines, in order.
pub open spec fn headers_bytes(hs: Seq<(Seq<u8>, Seq<u8>)>) -> Seq<u8>
    decreases hs.len(),
{
    if hs.len() == 0 {
        Seq::<u8>::empty()
    } else {
        header_line_bytes(hs[0]) + headers_bytes(hs.drop_first())
    }
}

/// Appending one header appends its line.
proof fn lemma_headers_bytes_push(hs: Seq<(Seq<u8>, Seq<u8>)>, h: (Seq<u8>, Seq<u8>))
    ensures
        headers_bytes(hs.push(h)) =~= headers_bytes(hs) + header_line_bytes(h),
    decreases hs.len(),
{
    if hs.len() == 0 {
        assert(hs.push(h).drop_first() =~~= hs);
        assert(hs.push(h)[0] == h);
    } else {
        assert(hs.push(h).drop_first() =~~= hs.drop_first().push(h));
        lemma_headers_bytes_push(hs.drop_first(), h);
        assert(hs.push(h)[0] == hs[0]);
    }
}

/// Appends `name: value` lines for each header.
fn append_header_lines(dst: &mut Vec<u8>, headers: &Vec<Header>)
    ensures
        final(dst)@ =~= old(dst)@ + headers_bytes(headers_model(headers@)),
{
    let n = headers.len();
    let mut i: usize = 0;
    proof {
        assert(headers_model(headers@).take(0) =~~= Seq::<(Seq<u8>, Seq<u8>)>::empty());
    }
    while i < n
        invariant
            i <= n,
            n == headers@.len(),
            dst@ =~= old(dst)@ + headers_bytes(headers_model(headers@).take(i as int)),
        decreases n - i,
    {
        let ghost taken = headers_model(headers@).take(i as int);
        append_bytes(dst, &headers[i].name);
        dst.push(58);
        dst.push(32);
        append_bytes(dst, &headers[i].value);
        dst.push(13);
        dst.push(10);
        proof {
            let h = headers_model(headers@)[i as int];
            lemma_headers_bytes_push(taken, h);
            assert(headers_model(headers@).take(i + 1) =~~= taken.push(h));
            assert(dst@ =~= old(dst)@ + headers_bytes(headers_model(headers@).take(i + 1)));
        }
        i += 1;
    }
    proof {
        assert(headers_model(headers@).take(n as int) =~~= headers_model(headers@));
    }
}

/// An outgoing request head: method, path and two header lists, the
/// fixed ones first and the caller's after them.
#[derive(Debug)]
pub struct OutRequest {
    /// The request method. Must be a valid method token.
    pub method: Vec<u8>,
    /// The request path. Must be a valid path and not empty.
    pub path: Vec<u8>,
    /// The fixed headers.
    pub headers: Vec<Header>,
    /// The caller's additional headers.
    pub additional_headers: Vec<Header>,
}

/// The bytes of an encoded request head.
pub open spec fn out_request_bytes(
    method: Seq<u8>,
    path: Seq<u8>,
    headers: Seq<(Seq<u8>, Seq<u8>)>,
    additional: Seq<(Seq<u8>, Seq<u8>)>,
) -> Seq<u8> {
    method + seq![32u8] + path + seq![32u8, 72u8, 84u8, 84u8, 80u8, 47u8, 49u8, 46u8, 49u8, 13u8, 10u8]
        + headers_bytes(headers) + headers_bytes(additional) + seq![13u8, 10u8]
}

impl OutRequest {
    /// Builds a request head without checking the method or the path.
    pub fn new_unchecked(
        method: Vec<u8>,
        path: Vec<u8>,
        headers: Vec<Header>,
        additional_headers: Vec<Header>,
    ) -> (r: Self)
        ensures
            r.method@ == method@,
            r.path@ == path@,
            r.headers@ == headers@,
            r.additional_headers@ == additional_headers@,
    {
        OutRequest { method, path, headers, additional_headers }
    }

    /// Builds a GET request head without checking the path.
    pub fn get_unchecked(path: Vec<u8>, headers: Vec<Header>, additional_headers: Vec<Header>) -> (r:
        Self)
        ensures
            r.method@ =~= seq![71u8, 69u8, 84u8],
            r.path@ == path@,
            r.headers@ == headers@,
            r.additional_headers@ == additional_headers@,
    {
        let mut method: Vec<u8> = Vec::new();
        method.push(71);
        method.push(69);
        method.push(84);
        Self::new_unchecked(method, path, headers, additional_headers)
    }
}

/// The request-head encoder.
#[derive(Debug)]
pub struct OutRequestCodec {}

impl OutRequestCodec {
    /// Creates the encoder.
    pub fn new() -> (r: Self) {
        OutRequestCodec {}
    }

    /// Encodes a request head, if it fits in `capacity` bytes.
    pub fn encode(&self, item: &OutRequest, capacity: usize) -> (r: Result<
        Vec<u8>,
        HttpEncodeError,
    >)
        ensures
            ({
                let total = out_request_bytes(
                    item.method@,
                    item.path@,
                    headers_model(item.headers@),
                    headers_model(item.additional_headers@),
                );
                &&& (r is Ok) <==> total.len() <= capacity
                &&& (r matches Ok(v) ==> v@ == total)
                &&& (r matches Err(e) ==> e == HttpEncodeError::BufferTooSmall)
            }),
    {
        let mut out: Vec<u8> = Vec::new();
        append_bytes(&mut out, &item.method);
        out.push(32);
        append_bytes(&mut out, &item.path);
        out.push(32);
        out.push(72);
        out.push(84);
        out.push(84);
        out.push(80);
        out.push(47);
        out.push(49);
        out.push(46);
        out.push(49);
        out.push(13);
        out.push(10);
        append_header_lines(&mut out, &item.headers);
        append_header_lines(&mut out, &item.additional_headers);
        out.push(13);
        out.push(10);
        proof {
            assert(out@ =~= out_request_bytes(
                item.method@,
                item.path@,
                headers_model(item.headers@),
                headers_model(item.additional_headers@),
            ));
        }
        if out.len() > capacity {
            return Err(HttpEncodeError::BufferTooSmall);
        }
        Ok(out)
    }
}

/// An outgoing response head: code, status phrase and two header lists.
#[derive(Debug)]
pub struct OutResponse {
    /// The status code digits.
    pub code: Vec<u8>,
    /// The status phrase.
    pub status: Vec<u8>,
    /// The fixed headers.
    pub headers: Vec<Header>,
    /// The caller's additional headers.
    pub additional_headers: Vec<Header>,
}

/// The bytes of an encoded response head.
pub open spec fn out_response_bytes(
    code: Seq<u8>,
    status: Seq<u8>,
    headers: Seq<(Seq<u8>, Seq<u8>)>,
    additional: Seq<(Seq<u8>, Seq<u8>)>,
) -> Seq<u8> {
    seq![72u8, 84u8, 84u8, 80u8, 47u8, 49u8, 46u8, 49u8, 32u8] + code + seq![32u8] + status
        + seq![13u8, 10u8] + headers_bytes(headers) + headers_bytes(additional) + seq![13u8, 10u8]
}

impl OutResponse {
    /// Builds a response head from its parts.
    pub fn new(code: Vec<u8>, status: Vec<u8>, headers: Vec<Header>, additional_headers: Vec<
        Header,
    >) -> (r: Self)
        ensures
            r.code@ == code@,
            r.status@ == status@,
            r.headers@ == headers@,
            r.additional_headers@ == additional_headers@,
    {
        OutResponse { code, status, headers, additional_headers }
    }

    /// Builds the `101 Switching Protocols` response head.
    pub fn switching_protocols(headers: Vec<Header>, additional_headers: Vec<Header>) -> (r: Self)
        ensures
            r.code@ =~= seq![49u8, 48u8, 49u8],
            r.status@ =~= seq![
                83u8, 119u8, 105u8, 116u8, 99u8, 104u8, 105u8, 110u8, 103u8, 32u8, 80u8, 114u8,
                111u8, 116u8, 111u8, 99u8, 111u8, 108u8, 115u8,
            ],
            r.headers@ == headers@,
            r.additional_headers@ == additional_headers@,
    {
        let mut code: Vec<u8> = Vec::new();
        code.push(49);
        code.push(48);
        code.push(49);
        let mut status: Vec<u8> = Vec::new();
        status.push(83);
        status.push(119);
        status.push(105);
        status.push(116);
        status.push(99);
        status.push(104);
        status.push(105);
        status.push(110);
        status.push(103);
        status.push(32);
        status.push(80);
        status.push(114);
        status.push(111);
        status.push(116);
        status.push(111);
        status.push(99);
        status.push(111);
        status.push(108);
        status.push(115);
        Self::new(code, status, headers, additional_headers)
    }
}

/// The response-head encoder.
#[derive(Debug)]
pub struct OutResponseCodec {}

impl OutResponseCodec {
    /// Creates the encoder.
    pub fn new() -> (r: Self) {
        OutResponseCodec {}
    }

    /// Encodes a response head, if it fits in `capacity` bytes.
    pub fn encode(&self, item: &OutResponse, capacity: usize) -> (r: Result<
        Vec<u8>,
        HttpEncodeError,
    >)
        ensures
            ({
                let total = out_response_bytes(
                    item.code@,
                    item.status@,
                    headers_model(item.headers@),
                    headers_model(item.additional_headers@),
                );
                &&& (r is Ok) <==> total.len() <= capacity
                &&& (r matches Ok(v) ==> v@ == total)
                &&& (r matches Err(e) ==> e == HttpEncodeError::BufferTooSmall)
            }),
    {
        let mut out: Vec<u8> = Vec::new();
        out.push(72);
        out.push(84);
        out.push(84);
        out.push(80);
        out.push(47);
        out.push(49);
        out.push(46);
        out.push(49);
        out.push(32);
        append_bytes(&mut out, &item.code);
        out.push(32);
        append_bytes(&mut out, &item.status);
        out.push(13);
        out.push(10);
        append_header_lines(&mut out, &item.headers);
        append_header_lines(&mut out, &item.additional_headers);
        out.push(13);
        out.push(10);
        proof {
            assert(out@ =~= out_response_bytes(
                item.code@,
                item.status@,
                headers_model(item.headers@),
                headers_model(item.additional_headers@),
            ));
        }
        if out.len() > capacity {
            return Err(HttpEncodeError::BufferTooSmall);
        }
        Ok(out)
    }
}

/// Appends `data` to `dst`, if the whole stays within `capacity` bytes.
pub fn write(dst: &mut Vec<u8>, capacity: usize, data: &Vec<u8>) -> (r: Result<
    (),
    HttpEncodeError,
>)
    ensures
        old(dst)@.len() + data@.len() > capacity ==> r == Err::<(), _>(
            HttpEncodeError::BufferTooSmall,
        ) && final(dst)@ == old(dst)@,
        old(dst)@.len() + data@.len() <= capacity ==> r is Ok && final(dst)@ == old(dst)@ + data@,
{
    if data.len() > capacity || dst.len() > capacity - data.len() {
        return Err(HttpEncodeError::BufferTooSmall);
    }
    append_bytes(dst, data);
    Ok(())
}

} // verus!
