//! The node: its shared state, its configuration constants, and the
//! parsing of incoming HTTP requests. The sockets and worker threads that
//! feed this module live with the process runner.

use vstd::prelude::*;
use crate::chain::transaction::Transaction;
use crate::chain::Chain;
use crate::node::resolve_requests::methods::{HTTPParseError, HTTPRequest, Method};
use crate::text;
use crate::text::json_stringable;

pub mod logger;
pub mod resolve_requests;
pub mod thread_pool;

verus! {

/// Default TCP port the node listens on when none is selected.
pub const DEFAULT_PORT: u16 = 9473;

/// How long the accept loop sleeps between polls, in milliseconds.
pub const REFRESH_RATE_SERVER_IN_MS: u64 = 50;

/// Picks the port the node will listen on: the default when asked for the
/// default or when the selected port is zero, otherwise the selected port.
pub fn select_port(default: bool, selected_port: u16) -> (port: u16)
    ensures
        default ==> port == DEFAULT_PORT,
        !default && selected_port >= 1 ==> port == selected_port,
        !default && selected_port == 0 ==> port == DEFAULT_PORT,
{
    if default {
        DEFAULT_PORT
    } else if selected_port >= 1 {
        selected_port
    } else {
        DEFAULT_PORT
    }
}

/// The state one node shares across its workers: the chain it extends,
/// the transactions waiting for a block, and a status text. All mutation
/// goes through one lock, which the process runner holds around each
/// handler call.
pub struct NodeState {
    pub chain: Chain,
    pub transactions: Vec<Transaction>,
    pub status: String,
}

impl NodeState {
    /// The status text stays printable, so it can stand in a report.
    pub open spec fn wf(&self) -> bool {
        json_stringable(self.status@)
    }

    /// Fresh node state around an existing chain.
    pub fn new(chain: Chain, status: String) -> (r: NodeState)
        requires
            json_stringable(status@),
        ensures
            r.chain == chain,
            r.transactions@.len() == 0,
            r.status@ == status@,
            r.wf(),
    {
        NodeState { chain, transactions: Vec::new(), status }
    }
}

// ---------------------------------------------------------------------------
// The request grammar, stated over the raw bytes.
// ---------------------------------------------------------------------------

/// The whitespace a line trim removes.
pub open spec fn is_ws_byte(b: u8) -> bool {
    b == 32 || b == 9 || b == 10 || b == 11 || b == 12 || b == 13
}

/// The first position of `b` at or after `pos`, or the end of the input.
pub open spec fn spec_find_byte(input: Seq<u8>, pos: int, b: u8) -> int
    decreases input.len() - pos when 0 <= pos <= input.len()
{
    if pos >= input.len() {
        input.len() as int
    } else if input[pos] == b {
        pos
    } else {
        spec_find_byte(input, pos + 1, b)
    }
}

/// A byte search never lands before its start nor past the end.
pub proof fn lemma_find_byte_bounds(input: Seq<u8>, pos: int, b: u8)
    requires
        0 <= pos <= input.len(),
    ensures
        pos <= spec_find_byte(input, pos, b) <= input.len(),
    decreases input.len() - pos,
{
    if pos < input.len() && input[pos] != b {
        lemma_find_byte_bounds(input, pos + 1, b);
    }
}

/// The input without its leading whitespace.
pub open spec fn spec_trim_front(s: Seq<u8>) -> Seq<u8>
    decreases s.len(),
{
    if s.len() > 0 && is_ws_byte(s[0]) {
        spec_trim_front(s.drop_first())
    } else {
        s
    }
}

/// The input without its trailing whitespace.
pub open spec fn spec_trim_back(s: Seq<u8>) -> Seq<u8>
    decreases s.len(),
{
    if s.len() > 0 && is_ws_byte(s.last()) {
        spec_trim_back(s.drop_last())
    } else {
        s
    }
}

/// The input without leading or trailing whitespace.
pub open spec fn spec_trim(s: Seq<u8>) -> Seq<u8> {
    spec_trim_back(spec_trim_front(s))
}

/// The header section read line by line from `pos`: each line up to the
/// first `':'` gives a trimmed name and value; a blank line — or the end
/// of the input — ends the section, and a header line with no `':'` is
/// malformed. Returns the header pairs and where the body starts.
pub open spec fn spec_headers(input: Seq<u8>, pos: int) -> Result<
    (Seq<(Seq<u8>, Seq<u8>)>, int),
    HTTPParseError,
>
    decreases input.len() - pos when 0 <= pos <= input.len() via spec_headers_decreases
{
    if pos >= input.len() {
        Result::Ok((Seq::empty(), input.len() as int))
    } else {
        let nl = spec_find_byte(input, pos, 10);
        let line = spec_trim_back(input.subrange(pos, nl));
        let next = if nl >= input.len() {
            input.len() as int
        } else {
            nl + 1
        };
        if line.len() == 0 {
            Result::Ok((Seq::empty(), next))
        } else {
            let c = spec_find_byte(line, 0, 58);
            if c >= line.len() {
                Result::Err(HTTPParseError::InvalidRequestLine)
            } else {
                let key = spec_trim(line.subrange(0, c));
                let value = spec_trim(line.subrange(c + 1, line.len() as int));
                match spec_headers(input, next) {
                    Result::Ok((rest, body)) => Result::Ok((seq![(key, value)] + rest, body)),
                    Result::Err(e) => Result::Err(e),
                }
            }
        }
    }
}

#[via_fn]
proof fn spec_headers_decreases(input: Seq<u8>, pos: int) {
    if 0 <= pos < input.len() {
        lemma_find_byte_bounds(input, pos, 10);
    }
}

/// The value of the last header whose (decoded) name is `name`.
pub open spec fn spec_header_value(headers: Seq<(Seq<u8>, Seq<u8>)>, name: Seq<char>) -> Option<
    Seq<u8>,
>
    decreases headers.len(),
{
    if headers.len() == 0 {
        Option::None
    } else if text::utf8_lossy(headers.last().0) == name {
        Option::Some(headers.last().1)
    } else {
        spec_header_value(headers.drop_last(), name)
    }
}

/// The number a content-length value denotes: an optional `'+'`, then
/// decimal digits whose value fits the machine.
pub open spec fn spec_content_length(v: Seq<char>) -> Option<int> {
    let w = if v.len() > 0 && v[0] == '+' {
        v.drop_first()
    } else {
        v
    };
    if w.len() > 0 && text::all_digits(w) && text::digits_value(w) <= usize::MAX {
        Option::Some(text::digits_value(w))
    } else {
        Option::None
    }
}

/// The parsed pieces of a request: method, path and version bytes, the
/// header pairs, and the body bytes of a write request.
pub struct RequestParts {
    pub method: Seq<u8>,
    pub path: Seq<u8>,
    pub version: Seq<u8>,
    pub headers: Seq<(Seq<u8>, Seq<u8>)>,
    pub body: Option<Seq<u8>>,
}

/// The request grammar over a byte buffer. One line of status, split on
/// single spaces into at least three tokens; header lines to a blank
/// line; no body for a read; for anything else a mandatory content-length
/// and exactly that many body bytes — fewer is malformed; any method but
/// a read or write is unparseable after its body.
pub open spec fn spec_parse_request(input: Seq<u8>) -> Result<RequestParts, HTTPParseError> {
    if input.len() == 0 {
        Result::Err(HTTPParseError::InvalidStatusLine)
    } else {
        let nl0 = spec_find_byte(input, 0, 10);
        let sl = spec_trim(input.subrange(0, nl0));
        let p1 = spec_find_byte(sl, 0, 32);
        if p1 >= sl.len() {
            Result::Err(HTTPParseError::InvalidRequestLine)
        } else {
            let p2 = spec_find_byte(sl, p1 + 1, 32);
            if p2 >= sl.len() {
                Result::Err(HTTPParseError::InvalidRequestLine)
            } else {
                let p3 = spec_find_byte(sl, p2 + 1, 32);
                let method = sl.subrange(0, p1);
                let path = sl.subrange(p1 + 1, p2);
                let version = sl.subrange(p2 + 1, p3);
                let head_start: int = if nl0 >= input.len() {
                    input.len() as int
                } else {
                    nl0 + 1
                };
                match spec_headers(input, head_start) {
                    Result::Err(e) => Result::Err(e),
                    Result::Ok((headers, body_start)) => {
                        if method == text::chars_as_bytes("GET"@) {
                            Result::Ok(
                                RequestParts {
                                    method,
                                    path,
                                    version,
                                    headers,
                                    body: Option::None,
                                },
                            )
                        } else {
                            match spec_header_value(headers, "content-length"@) {
                                Option::None => Result::Err(HTTPParseError::MissingContentLength),
                                Option::Some(v) => match spec_content_length(
                                    text::utf8_lossy(v),
                                ) {
                                    Option::None => Result::Err(
                                        HTTPParseError::MissingContentLength,
                                    ),
                                    Option::Some(n) => {
                                        if body_start + n > input.len() {
                                            Result::Err(HTTPParseError::InvalidRequestLine)
                                        } else if method == text::chars_as_bytes("POST"@) {
                                            Result::Ok(
                                                RequestParts {
                                                    method,
                                                    path,
                                                    version,
                                                    headers,
                                                    body: Option::Some(
                                                        input.subrange(
                                                            body_start,
                                                            body_start + n,
                                                        ),
                                                    ),
                                                },
                                            )
                                        } else {
                                            Result::Err(HTTPParseError::InvalidStatusLine)
                                        }
                                    },
                                },
                            }
                        }
                    },
                }
            }
        }
    }
}

// ---------------------------------------------------------------------------
// The executable parser.
// ---------------------------------------------------------------------------

/// Finds the first `b` at or after `pos`.
fn find_byte_from(input: &Vec<u8>, pos: usize, b: u8) -> (r: usize)
    requires
        pos <= input@.len(),
    ensures
        r == spec_find_byte(input@, pos as int, b),
        pos <= r <= input@.len(),
        r < input@.len() ==> input@[r as int] == b,
{
    let mut cur: usize = pos;
    while cur < input.len() && input[cur] != b
        invariant
            pos <= cur <= input@.len(),
            spec_find_byte(input@, pos as int, b) == spec_find_byte(input@, cur as int, b),
        decreases input@.len() - cur,
    {
        cur = cur + 1;
    }
    cur
}

/// Copies `input[lo..hi]` into a fresh buffer.
fn copy_range(input: &Vec<u8>, lo: usize, hi: usize) -> (r: Vec<u8>)
    requires
        lo <= hi <= input@.len(),
    ensures
        r@ == input@.subrange(lo as int, hi as int),
{
    let mut out: Vec<u8> = Vec::new();
    let mut i: usize = lo;
    while i < hi
        invariant
            lo <= i <= hi <= input@.len(),
            out@ == input@.subrange(lo as int, i as int),
        decreases hi - i,
    {
        out.push(input[i]);
        proof {
            assert(input@.subrange(lo as int, i as int + 1) =~= out@);
        }
        i = i + 1;
    }
    out
}

/// Whether a byte counts as trimmable whitespace.
fn is_ws(b: u8) -> (r: bool)
    ensures
        r == is_ws_byte(b),
{
    b == 32 || b == 9 || b == 10 || b == 11 || b == 12 || b == 13
}

/// The end of `v` once trailing whitespace is dropped.
fn trim_back_len(v: &Vec<u8>) -> (hi: usize)
    ensures
        hi <= v@.len(),
        v@.subrange(0, hi as int) == spec_trim_back(v@),
{
    let mut hi: usize = v.len();
    proof {
        assert(v@.subrange(0, v@.len() as int) =~= v@);
    }
    while hi > 0 && is_ws(v[hi - 1])
        invariant
            0 <= hi <= v@.len(),
            spec_trim_back(v@) == spec_trim_back(v@.subrange(0, hi as int)),
        decreases hi,
    {
        proof {
            assert(v@.subrange(0, hi as int).drop_last() =~= v@.subrange(0, hi as int - 1));
        }
        hi = hi - 1;
    }
    proof {
        if hi == 0 {
            assert(v@.subrange(0, 0) =~= Seq::<u8>::empty());
        }
        assert(spec_trim_back(v@.subrange(0, hi as int)) == v@.subrange(0, hi as int));
    }
    hi
}

/// The bounds of `v` once whitespace is dropped from both ends.
fn trim_range(v: &Vec<u8>) -> (r: (usize, usize))
    ensures
        r.0 <= r.1 <= v@.len(),
        v@.subrange(r.0 as int, r.1 as int) == spec_trim(v@),
{
    let mut lo: usize = 0;
    proof {
        assert(v@.subrange(0, v@.len() as int) =~= v@);
    }
    while lo < v.len() && is_ws(v[lo])
        invariant
            0 <= lo <= v@.len(),
            spec_trim_front(v@) == spec_trim_front(v@.subrange(lo as int, v@.len() as int)),
        decreases v@.len() - lo,
    {
        proof {
            assert(v@.subrange(lo as int, v@.len() as int).drop_first() =~= v@.subrange(
                lo as int + 1,
                v@.len() as int,
            ));
        }
        lo = lo + 1;
    }
    proof {
        if lo == v@.len() {
            assert(v@.subrange(lo as int, v@.len() as int) =~= Seq::<u8>::empty());
        }
        assert(spec_trim_front(v@) == v@.subrange(lo as int, v@.len() as int));
    }
    let mut hi: usize = v.len();
    while hi > lo && is_ws(v[hi - 1])
        invariant
            lo <= hi <= v@.len(),
            spec_trim_back(v@.subrange(lo as int, v@.len() as int)) == spec_trim_back(
                v@.subrange(lo as int, hi as int),
            ),
        decreases hi,
    {
        proof {
            assert(v@.subrange(lo as int, hi as int).drop_last() =~= v@.subrange(
                lo as int,
                hi as int - 1,
            ));
        }
        hi = hi - 1;
    }
    proof {
        if hi == lo {
            assert(v@.subrange(lo as int, lo as int) =~= Seq::<u8>::empty());
        }
        assert(spec_trim_back(v@.subrange(lo as int, hi as int)) == v@.subrange(
            lo as int,
            hi as int,
        ));
    }
    (lo, hi)
}

/// Whether `v` holds exactly the bytes of the ASCII literal `lit`.
fn bytes_eq_lit(v: &Vec<u8>, lit: &str) -> (r: bool)
    requires
        vstd::utf8::is_ascii_chars(lit@),
    ensures
        r == (v@ == text::chars_as_bytes(lit@)),
{
    let lit_bytes = text::ascii_str_bytes(lit);
    if v.len() != lit_bytes.len() {
        return false;
    }
    let mut i: usize = 0;
    while i < v.len()
        invariant
            v@.len() == lit_bytes@.len(),
            lit_bytes@ == text::chars_as_bytes(lit@),
            0 <= i <= v@.len(),
            forall|j: int| 0 <= j < i ==> v@[j] == lit_bytes@[j],
        decreases v@.len() - i,
    {
        if v[i] != lit_bytes[i] {
            return false;
        }
        i = i + 1;
    }
    proof {
        assert(v@ =~= lit_bytes@);
    }
    true
}

/// The headers' string pairs decode the byte pairs one for one.
pub open spec fn headers_decode(decoded: Seq<(String, String)>, raw: Seq<(Seq<u8>, Seq<u8>)>)
    -> bool {
    &&& decoded.len() == raw.len()
    &&& forall|i: int|
        0 <= i < raw.len() ==> (#[trigger] decoded[i]).0@ == text::utf8_lossy(raw[i].0)
            && decoded[i].1@ == text::utf8_lossy(raw[i].1)
}

/// A lookup over the decoded pairs answers like the lookup over the raw
/// pairs, decoded.
proof fn lemma_lookup_decode(
    decoded: Seq<(String, String)>,
    raw: Seq<(Seq<u8>, Seq<u8>)>,
    name: Seq<char>,
)
    requires
        headers_decode(decoded, raw),
    ensures
        match spec_header_value(raw, name) {
            Option::Some(v) => crate::node::resolve_requests::methods::spec_header_lookup(
                decoded,
                name,
            ) == Option::Some(text::utf8_lossy(v)),
            Option::None => crate::node::resolve_requests::methods::spec_header_lookup(
                decoded,
                name,
            ) is None,
        },
    decreases raw.len(),
{
    if raw.len() > 0 {
        assert(decoded.last() == decoded[raw.len() - 1]);
        assert(decoded.drop_last().len() == raw.drop_last().len());
        assert forall|i: int| 0 <= i < raw.drop_last().len() implies (#[trigger] decoded.drop_last()[i]).0@
            == text::utf8_lossy(raw.drop_last()[i].0) && decoded.drop_last()[i].1@
            == text::utf8_lossy(raw.drop_last()[i].1) by {
            assert(decoded.drop_last()[i] == decoded[i]);
            assert(raw.drop_last()[i] == raw[i]);
        }
        lemma_lookup_decode(decoded.drop_last(), raw.drop_last(), name);
    }
}

/// Parses one request from its raw bytes, to the letter of the request
/// grammar; every piece of text is decoded from its bytes with lossy
/// replacement.
pub fn parse_http_request(data: &Vec<u8>) -> (r: Result<HTTPRequest, HTTPParseError>)
    ensures
        match spec_parse_request(data@) {
            Result::Err(e) => r matches Err(e2) && e2 == e,
            Result::Ok(p) => r matches Ok(req) && {
                &&& (p.method == text::chars_as_bytes("GET"@) ==> (req.spec_method()
                    matches Method::GET(d) && d.path@ == text::utf8_lossy(p.path)))
                &&& (p.method == text::chars_as_bytes("POST"@) ==> (req.spec_method()
                    matches Method::POST(d) && d.path@ == text::utf8_lossy(p.path) && (d.body
                    matches Some(b) && p.body matches Some(pb) && b@ == text::utf8_lossy(pb))))
                &&& (p.method == text::chars_as_bytes("GET"@) || p.method == text::chars_as_bytes(
                    "POST"@,
                ))
                &&& req.spec_http_version() == text::utf8_lossy(p.version)
                &&& headers_decode(req.headers@, p.headers)
            },
        },
{
    proof {
        reveal_strlit("GET");
        reveal_strlit("POST");
        reveal_strlit("content-length");
    }
    if data.len() == 0 {
        return Err(HTTPParseError::InvalidStatusLine);
    }
    let nl0 = find_byte_from(data, 0, 10);
    let line0 = copy_range(data, 0, nl0);
    let (slo, shi) = trim_range(&line0);
    let sl = copy_range(&line0, slo, shi);
    let p1 = find_byte_from(&sl, 0, 32);
    if p1 >= sl.len() {
        return Err(HTTPParseError::InvalidRequestLine);
    }
    let p2 = find_byte_from(&sl, p1 + 1, 32);
    if p2 >= sl.len() {
        return Err(HTTPParseError::InvalidRequestLine);
    }
    let p3 = find_byte_from(&sl, p2 + 1, 32);
    let method_b = copy_range(&sl, 0, p1);
    let path_b = copy_range(&sl, p1 + 1, p2);
    let version_b = copy_range(&sl, p2 + 1, p3);
    let head_start: usize = if nl0 >= data.len() {
        data.len()
    } else {
        nl0 + 1
    };

    let mut headers: Vec<(String, String)> = Vec::new();
    let ghost mut hcollect: Seq<(Seq<u8>, Seq<u8>)> = Seq::empty();
    let mut cur: usize = head_start;
    let mut body_start: usize = data.len();
    loop
        invariant_except_break
            data@.len() > 0,
            nl0 == spec_find_byte(data@, 0, 10),
            nl0 <= data@.len(),
            sl@ == spec_trim(data@.subrange(0, nl0 as int)),
            p1 == spec_find_byte(sl@, 0, 32),
            p1 < sl@.len(),
            p2 == spec_find_byte(sl@, p1 as int + 1, 32),
            p2 < sl@.len(),
            head_start as int == (if nl0 as int >= data@.len() {
                data@.len() as int
            } else {
                nl0 as int + 1
            }),
            head_start <= cur <= data@.len(),
            headers_decode(headers@, hcollect),
            match spec_headers(data@, head_start as int) {
                Result::Ok((hs, bs)) => spec_headers(data@, cur as int) matches Result::Ok(rb)
                    && hs == hcollect + rb.0 && bs == rb.1,
                Result::Err(e) => spec_headers(data@, cur as int) matches Result::Err(e2) && e
                    == e2,
            },
        ensures
            headers_decode(headers@, hcollect),
            body_start <= data@.len(),
            spec_headers(data@, head_start as int) == Result::<
                (Seq<(Seq<u8>, Seq<u8>)>, int),
                HTTPParseError,
            >::Ok((hcollect, body_start as int)),
        decreases data@.len() - cur,
    {
        if cur >= data.len() {
            body_start = data.len();
            proof {
                assert(hcollect + Seq::<(Seq<u8>, Seq<u8>)>::empty() =~= hcollect);
            }
            break;
        }
        let nl = find_byte_from(data, cur, 10);
        let line = copy_range(data, cur, nl);
        let lt_hi = trim_back_len(&line);
        let next: usize = if nl >= data.len() {
            data.len()
        } else {
            nl + 1
        };
        if lt_hi == 0 {
            body_start = next;
            proof {
                assert(hcollect + Seq::<(Seq<u8>, Seq<u8>)>::empty() =~= hcollect);
            }
            break;
        }
        let lt = copy_range(&line, 0, lt_hi);
        let c = find_byte_from(&lt, 0, 58);
        if c >= lt.len() {
            return Err(HTTPParseError::InvalidRequestLine);
        }
        let kb = copy_range(&lt, 0, c);
        let (klo, khi) = trim_range(&kb);
        let key_bytes = copy_range(&kb, klo, khi);
        let vb = copy_range(&lt, c + 1, lt.len());
        let (vlo, vhi) = trim_range(&vb);
        let val_bytes = copy_range(&vb, vlo, vhi);
        let key_s = text::utf8_lossy_decode(key_bytes.as_slice());
        let val_s = text::utf8_lossy_decode(val_bytes.as_slice());
        headers.push((key_s, val_s));
        proof {
            let ghost pair = (key_bytes@, val_bytes@);
            let ghost prev = hcollect;
            hcollect = hcollect.push(pair);
            assert(headers_decode(headers@, hcollect));
            match spec_headers(data@, cur as int) {
                Result::Ok((rest, bs)) => {
                    assert(rest == seq![pair] + match spec_headers(data@, next as int) {
                        Result::Ok((r2, _)) => r2,
                        Result::Err(_) => Seq::<(Seq<u8>, Seq<u8>)>::empty(),
                    });
                    match spec_headers(data@, next as int) {
                        Result::Ok((r2, b2)) => {
                            assert(prev + (seq![pair] + r2) =~= hcollect + r2);
                        },
                        Result::Err(_) => {},
                    }
                },
                Result::Err(_) => {},
            }
        }
        cur = next;
    }

    let is_get = bytes_eq_lit(&method_b, "GET");
    let is_post = bytes_eq_lit(&method_b, "POST");
    let method_s = text::utf8_lossy_decode(method_b.as_slice());
    let path_s = text::utf8_lossy_decode(path_b.as_slice());
    let version_s = text::utf8_lossy_decode(version_b.as_slice());
    proof {
        if is_get {
            assert(method_s@ =~= "GET"@);
        }
        if is_post {
            assert(method_s@ =~= "POST"@);
        }
    }
    if is_get {
        return Ok(HTTPRequest::new(method_s, path_s, version_s, headers, None));
    }

    let cl = crate::node::resolve_requests::methods::header_lookup(&headers, "content-length");
    proof {
        lemma_lookup_decode(headers@, hcollect, "content-length"@);
    }
    let content_length: usize = match cl {
        Some(value) => match parse_content_length(&value) {
            Some(n) => n,
            None => {
                return Err(HTTPParseError::MissingContentLength);
            },
        },
        None => {
            return Err(HTTPParseError::MissingContentLength);
        },
    };
    if content_length > data.len() - body_start {
        return Err(HTTPParseError::InvalidRequestLine);
    }
    let body_b = copy_range(data, body_start, body_start + content_length);
    let body_s = text::utf8_lossy_decode(body_b.as_slice());
    if is_post {
        proof {
            assert("POST"@ != "GET"@);
        }
        return Ok(HTTPRequest::new(method_s, path_s, version_s, headers, Some(body_s)));
    }
    Err(HTTPParseError::InvalidStatusLine)
}

/// Reads a content-length value: an optional leading plus sign, then
/// decimal digits whose value fits the machine.
fn parse_content_length(value: &String) -> (r: Option<usize>)
    ensures
        match spec_content_length(value@) {
            Option::Some(n) => r matches Some(m) && m as int == n,
            Option::None => r is None,
        },
{
    let s = value.as_str();
    let n = s.unicode_len();
    if n > 0 && s.get_char(0) == '+' {
        let rest = s.substring_char(1, n);
        proof {
            assert(rest@ =~= value@.drop_first());
        }
        text::parse_usize(rest)
    } else {
        text::parse_usize(s)
    }
}

// ---------------------------------------------------------------------------
// Framing: how many bytes make up one full request.
// ---------------------------------------------------------------------------

/// Where the head section ends — just past the first blank line — or
/// nothing while no complete blank line has arrived yet.
pub open spec fn spec_head_end(input: Seq<u8>, pos: int) -> Option<int>
    decreases input.len() - pos when 0 <= pos <= input.len() via spec_head_end_decreases
{
    if pos >= input.len() {
        Option::None
    } else {
        let nl = spec_find_byte(input, pos, 10);
        if nl >= input.len() {
            Option::None
        } else {
            let line = spec_trim_back(input.subrange(pos, nl));
            if line.len() == 0 {
                Option::Some(nl + 1)
            } else {
                spec_head_end(input, nl + 1)
            }
        }
    }
}

#[via_fn]
proof fn spec_head_end_decreases(input: Seq<u8>, pos: int) {
    if 0 <= pos < input.len() {
        lemma_find_byte_bounds(input, pos, 10);
    }
}

/// How many leading bytes of the buffer one full request takes: nothing
/// while the head (status line and headers up to a blank line) is still
/// incomplete; the head alone for a read, for a malformed head or for a
/// missing or bad content-length; the head plus the declared body length
/// otherwise, saturating at the machine limit.
pub open spec fn spec_bytes_needed(input: Seq<u8>) -> Option<int> {
    if input.len() == 0 {
        Option::None
    } else {
        let nl0 = spec_find_byte(input, 0, 10);
        if nl0 >= input.len() {
            Option::None
        } else {
            match spec_head_end(input, nl0 + 1) {
                Option::None => Option::None,
                Option::Some(he) => {
                    let sl = spec_trim(input.subrange(0, nl0));
                    let p1 = spec_find_byte(sl, 0, 32);
                    if p1 >= sl.len() {
                        Option::Some(he)
                    } else if spec_find_byte(sl, p1 + 1, 32) >= sl.len() {
                        Option::Some(he)
                    } else if sl.subrange(0, p1) == text::chars_as_bytes("GET"@) {
                        Option::Some(he)
                    } else {
                        match spec_headers(input, nl0 + 1) {
                            Result::Err(_) => Option::Some(he),
                            Result::Ok((hs, _)) => match spec_header_value(
                                hs,
                                "content-length"@,
                            ) {
                                Option::None => Option::Some(he),
                                Option::Some(v) => match spec_content_length(
                                    text::utf8_lossy(v),
                                ) {
                                    Option::None => Option::Some(he),
                                    Option::Some(n) => {
                                        if he + n > usize::MAX {
                                            Option::Some(usize::MAX as int)
                                        } else {
                                            Option::Some(he + n)
                                        }
                                    },
                                },
                            },
                        }
                    }
                },
            }
        }
    }
}

/// Tells the reader when it has one full request: `None` asks for more
/// bytes, `Some(n)` says the first `n` bytes are the request to parse.
pub fn bytes_needed(data: &Vec<u8>) -> (r: Option<usize>)
    ensures
        match spec_bytes_needed(data@) {
            Option::Some(n) => r matches Some(m) && m as int == n,
            Option::None => r is None,
        },
{
    proof {
        reveal_strlit("GET");
        reveal_strlit("content-length");
    }
    if data.len() == 0 {
        return None;
    }
    let nl0 = find_byte_from(data, 0, 10);
    if nl0 >= data.len() {
        return None;
    }

    // find the end of the head: just past the first blank line
    let mut cur: usize = nl0 + 1;
    let mut head_end: usize = 0;
    let mut found: bool = false;
    loop
        invariant_except_break
            nl0 as int == spec_find_byte(data@, 0, 10),
            nl0 < data@.len(),
            nl0 + 1 <= cur <= data@.len(),
            spec_head_end(data@, nl0 as int + 1) == spec_head_end(data@, cur as int),
        ensures
            nl0 + 1 <= cur <= data@.len(),
            found ==> spec_head_end(data@, nl0 as int + 1) == Option::Some(head_end as int)
                && head_end <= data@.len(),
            !found ==> spec_head_end(data@, nl0 as int + 1) is None,
        decreases data@.len() - cur,
    {
        if cur >= data.len() {
            found = false;
            break;
        }
        let nl = find_byte_from(data, cur, 10);
        if nl >= data.len() {
            found = false;
            break;
        }
        let line = copy_range(data, cur, nl);
        let lt_hi = trim_back_len(&line);
        if lt_hi == 0 {
            head_end = nl + 1;
            found = true;
            break;
        }
        cur = nl + 1;
    }
    if !found {
        return None;
    }

    // decide how much body must follow the head
    let line0 = copy_range(data, 0, nl0);
    let (slo, shi) = trim_range(&line0);
    let sl = copy_range(&line0, slo, shi);
    let p1 = find_byte_from(&sl, 0, 32);
    if p1 >= sl.len() {
        return Some(head_end);
    }
    if find_byte_from(&sl, p1 + 1, 32) >= sl.len() {
        return Some(head_end);
    }
    let method_b = copy_range(&sl, 0, p1);
    if bytes_eq_lit(&method_b, "GET") {
        return Some(head_end);
    }

    // collect the headers to read the content-length
    let mut headers: Vec<(String, String)> = Vec::new();
    let ghost mut hcollect: Seq<(Seq<u8>, Seq<u8>)> = Seq::empty();
    let mut cur2: usize = nl0 + 1;
    let ghost sl0 = spec_trim(data@.subrange(0, nl0 as int));
    loop
        invariant_except_break
            data@.len() > 0,
            nl0 as int == spec_find_byte(data@, 0, 10),
            nl0 < data@.len(),
            sl0 == spec_trim(data@.subrange(0, nl0 as int)),
            spec_find_byte(sl0, 0, 32) < sl0.len(),
            spec_find_byte(sl0, spec_find_byte(sl0, 0, 32) + 1, 32) < sl0.len(),
            sl0.subrange(0, spec_find_byte(sl0, 0, 32)) != text::chars_as_bytes("GET"@),
            spec_head_end(data@, nl0 as int + 1) == Option::Some(head_end as int),
            head_end <= data@.len(),
            nl0 + 1 <= cur2 <= data@.len(),
            headers_decode(headers@, hcollect),
            match spec_headers(data@, nl0 as int + 1) {
                Result::Ok((hs, bs)) => spec_headers(data@, cur2 as int) matches Result::Ok(rb)
                    && hs == hcollect + rb.0 && bs == rb.1,
                Result::Err(e) => spec_headers(data@, cur2 as int) matches Result::Err(e2) && e
                    == e2,
            },
        ensures
            headers_decode(headers@, hcollect),
            spec_headers(data@, nl0 as int + 1) matches Result::Ok(rb) && rb.0 == hcollect,
        decreases data@.len() - cur2,
    {
        if cur2 >= data.len() {
            proof {
                assert(hcollect + Seq::<(Seq<u8>, Seq<u8>)>::empty() =~= hcollect);
            }
            break;
        }
        let nl = find_byte_from(data, cur2, 10);
        let line = copy_range(data, cur2, nl);
        let lt_hi = trim_back_len(&line);
        let next: usize = if nl >= data.len() {
            data.len()
        } else {
            nl + 1
        };
        if lt_hi == 0 {
            proof {
                assert(hcollect + Seq::<(Seq<u8>, Seq<u8>)>::empty() =~= hcollect);
            }
            break;
        }
        let lt = copy_range(&line, 0, lt_hi);
        let c = find_byte_from(&lt, 0, 58);
        if c >= lt.len() {
            return Some(head_end);
        }
        let kb = copy_range(&lt, 0, c);
        let (klo, khi) = trim_range(&kb);
        let key_bytes = copy_range(&kb, klo, khi);
        let vb = copy_range(&lt, c + 1, lt.len());
        let (vlo, vhi) = trim_range(&vb);
        let val_bytes = copy_range(&vb, vlo, vhi);
        let key_s = text::utf8_lossy_decode(key_bytes.as_slice());
        let val_s = text::utf8_lossy_decode(val_bytes.as_slice());
        headers.push((key_s, val_s));
        proof {
            let ghost pair = (key_bytes@, val_bytes@);
            let ghost prev = hcollect;
            hcollect = hcollect.push(pair);
            match spec_headers(data@, cur2 as int) {
                Result::Ok((rest, bs)) => {
                    match spec_headers(data@, next as int) {
                        Result::Ok((r2, b2)) => {
                            assert(prev + (seq![pair] + r2) =~= hcollect + r2);
                        },
                        Result::Err(_) => {},
                    }
                },
                Result::Err(_) => {},
            }
        }
        cur2 = next;
    }

    let cl = crate::node::resolve_requests::methods::header_lookup(&headers, "content-length");
    proof {
        lemma_lookup_decode(headers@, hcollect, "content-length"@);
    }
    match cl {
        None => Some(head_end),
        Some(value) => match parse_content_length(&value) {
            None => Some(head_end),
            Some(n) => {
                if n > usize::MAX - head_end {
                    Some(usize::MAX)
                } else {
                    Some(head_end + n)
                }
            },
        },
    }
}

} // verus!
