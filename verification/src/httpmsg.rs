//! The fixed-shape HTTP exchange: the one request every iteration sends,
//! and the parsing of the received transcript bytes into a response
//! summary (status, body position, body classification).
//!
//! Only the single exchange shape this workflow uses is modelled: one
//! HTTP/1.0 request with a fixed header set and an empty body, answered
//! by one response whose head ends at the first blank line.

use vstd::prelude::*;
use crate::config::{digit_val, is_digit_byte, SessionConfig};

verus! {

/// Protocol version of the fixed request.
#[derive(Clone, Copy, PartialEq, Eq, Structural, Debug)]
pub enum HttpVersion {
    Http10,
    Http11,
}

/// One header of the fixed request.
pub struct HeaderField {
    pub name: String,
    pub value: String,
}

/// The structured form of the one request an iteration sends; the HTTP
/// layer renders it on the wire.
pub struct RequestPlan {
    pub method: String,
    pub version: HttpVersion,
    pub uri: String,
    pub headers: Vec<HeaderField>,
}

/// Builds the fixed-shape request: GET over HTTP/1.0 with exactly the
/// five headers of this workflow and an empty body.
pub fn build_request(cfg: &SessionConfig, uri: &str) -> (r: RequestPlan)
    ensures
        r.method@ == "GET"@,
        r.version == HttpVersion::Http10,
        r.uri@ == uri@,
        r.headers@.len() == 5,
        r.headers@[0].name@ == "Host"@ && r.headers@[0].value@ == cfg.server_name@,
        r.headers@[1].name@ == "Accept"@ && r.headers@[1].value@ == "*/*"@,
        r.headers@[2].name@ == "Accept-Encoding"@ && r.headers@[2].value@ == "identity"@,
        r.headers@[3].name@ == "Connection"@ && r.headers@[3].value@ == "close"@,
        r.headers@[4].name@ == "User-Agent"@ && r.headers@[4].value@
            == "Mozilla/5.0 (X11; Linux x86_64) AppleWebKit/537.36 (KHTML, like Gecko) Chrome/114.0.0.0 Safari/537.36"@,
{
    let mut headers: Vec<HeaderField> = Vec::new();
    headers.push(HeaderField { name: "Host".to_owned(), value: cfg.server_name.clone() });
    headers.push(HeaderField { name: "Accept".to_owned(), value: "*/*".to_owned() });
    headers.push(
        HeaderField { name: "Accept-Encoding".to_owned(), value: "identity".to_owned() },
    );
    headers.push(HeaderField { name: "Connection".to_owned(), value: "close".to_owned() });
    headers.push(
        HeaderField { name: "User-Agent".to_owned(), value: crate::config::user_agent().to_owned() },
    );
    RequestPlan { method: "GET".to_owned(), version: HttpVersion::Http10, uri: uri.to_owned(), headers }
}

/// ASCII lower-casing of one byte.
pub open spec fn lower_byte(b: u8) -> u8 {
    if 65 <= b && b <= 90 {
        (b + 32) as u8
    } else {
        b
    }
}

/// ASCII lower-casing of a byte string.
pub open spec fn lower_bytes(s: Seq<u8>) -> Seq<u8> {
    s.map_values(|b: u8| lower_byte(b))
}

/// Lower-cases a byte string for case-insensitive header matching.
fn to_lower(h: &[u8]) -> (r: Vec<u8>)
    ensures
        r@ == lower_bytes(h@),
{
    let mut out: Vec<u8> = Vec::new();
    let mut i: usize = 0;
    while i < h.len()
        invariant
            i <= h@.len(),
            out@ == lower_bytes(h@.take(i as int)),
        decreases h@.len() - i,
    {
        let b = h[i];
        if 65 <= b && b <= 90 {
            out.push(b + 32);
        } else {
            out.push(b);
        }
        i = i + 1;
        assert(out@ =~= lower_bytes(h@.take(i as int)));
    }
    assert(h@.take(h@.len() as int) =~= h@);
    out
}

/// Whether `n` occurs in `h` at offset `i`.
pub open spec fn match_at(h: Seq<u8>, n: Seq<u8>, i: int) -> bool {
    0 <= i && i + n.len() <= h.len() && h.subrange(i, i + n.len()) == n
}

/// The first offset at or after `from` where `n` occurs in `h`.
pub open spec fn find_match_from(h: Seq<u8>, n: Seq<u8>, from: int) -> Option<int>
    decreases h.len() - from,
    when 0 <= from && 1 <= n.len()
{
    if from + n.len() > h.len() {
        None
    } else if match_at(h, n, from) {
        Some(from)
    } else {
        find_match_from(h, n, from + 1)
    }
}

/// A found offset is a real occurrence at or after the start.
proof fn lemma_find_match_some(h: Seq<u8>, n: Seq<u8>, from: int)
    requires
        0 <= from,
        1 <= n.len(),
        find_match_from(h, n, from) is Some,
    ensures
        match_at(h, n, find_match_from(h, n, from)->Some_0),
        find_match_from(h, n, from)->Some_0 >= from,
    decreases h.len() - from,
{
    if from + n.len() > h.len() {
    } else if match_at(h, n, from) {
    } else {
        lemma_find_match_some(h, n, from + 1);
    }
}

/// Whether `needle` occurs in `h` at offset `i`, checked byte by byte.
fn is_match_at(h: &[u8], needle: &[u8], i: usize) -> (r: bool)
    requires
        i + needle@.len() <= h@.len(),
    ensures
        r == match_at(h@, needle@, i as int),
{
    let n = h.len();
    let nl = needle.len();
    let mut j: usize = 0;
    while j < nl
        invariant
            j <= nl,
            nl == needle@.len(),
            n == h@.len(),
            i + nl <= n,
            h@.subrange(i as int, i + j) == needle@.take(j as int),
        decreases nl - j,
    {
        if h[i + j] != needle[j] {
            assert(h@.subrange(i as int, i + nl as int)[j as int] != needle@[j as int]);
            return false;
        }
        j = j + 1;
        assert(h@.subrange(i as int, i + j) =~= h@.subrange(i as int, i + j - 1) + seq![
            h@[i + j - 1],
        ]);
        assert(needle@.take(j as int) =~= needle@.take(j - 1) + seq![needle@[j - 1]]);
    }
    assert(h@.subrange(i as int, i + nl as int) =~= needle@.take(nl as int));
    assert(needle@.take(nl as int) =~= needle@);
    true
}

/// Finds the first occurrence of `needle` in `h` at or after `from`.
fn find_match(h: &[u8], needle: &[u8], from: usize) -> (r: Option<usize>)
    requires
        needle@.len() >= 1,
    ensures
        match r {
            Some(i) => find_match_from(h@, needle@, from as int) == Some(i as int),
            None => find_match_from(h@, needle@, from as int) is None,
        },
{
    let hl = h.len();
    let nl = needle.len();
    if hl < nl || from > hl - nl {
        return None;
    }
    let mut i: usize = from;
    while i <= hl - nl
        invariant
            from <= i,
            nl >= 1,
            nl <= hl,
            hl == h@.len(),
            nl == needle@.len(),
            i <= hl - nl + 1,
            find_match_from(h@, needle@, from as int) == find_match_from(h@, needle@, i as int),
        decreases hl - i,
    {
        if is_match_at(h, needle, i) {
            return Some(i);
        }
        i = i + 1;
    }
    None
}

/// The first offset at or after `i` holding neither a space nor a tab.
pub open spec fn skip_ws_from(h: Seq<u8>, i: int) -> int
    decreases h.len() - i,
    when 0 <= i <= h.len()
{
    if i < h.len() && (h[i] == 32 || h[i] == 9) {
        skip_ws_from(h, i + 1)
    } else {
        i
    }
}

/// Skips spaces and tabs.
fn skip_ws(h: &[u8], from: usize) -> (r: usize)
    requires
        from <= h@.len(),
    ensures
        r == skip_ws_from(h@, from as int),
        from <= r <= h@.len(),
{
    let n = h.len();
    let mut i: usize = from;
    while i < n && (h[i] == 32 || h[i] == 9)
        invariant
            from <= i <= n,
            n == h@.len(),
            skip_ws_from(h@, from as int) == skip_ws_from(h@, i as int),
        decreases n - i,
    {
        i = i + 1;
    }
    i
}

/// The line break followed by the lowered `content-type:` header name.
pub open spec fn content_type_needle() -> Seq<u8> {
    seq![13u8, 10u8, 99u8, 111u8, 110u8, 116u8, 101u8, 110u8, 116u8, 45u8, 116u8, 121u8, 112u8, 101u8, 58u8]
}

/// The lowered `application/json` media type.
pub open spec fn json_needle() -> Seq<u8> {
    seq![97u8, 112u8, 112u8, 108u8, 105u8, 99u8, 97u8, 116u8, 105u8, 111u8, 110u8, 47u8, 106u8, 115u8, 111u8, 110u8]
}

/// The blank line that ends a response head.
pub open spec fn head_end_needle() -> Seq<u8> {
    seq![13u8, 10u8, 13u8, 10u8]
}

/// Whether a response head declares a JSON body: some header line is
/// named `content-type` (case-insensitively) and its value, after
/// optional blanks, starts with `application/json`.
pub open spec fn spec_head_has_json(head: Seq<u8>) -> bool {
    let low = lower_bytes(head);
    match find_match_from(low, content_type_needle(), 0) {
        None => false,
        Some(i) => match_at(low, json_needle(), skip_ws_from(low, i + 15)),
    }
}

/// Decides whether a response head declares a JSON body.
pub fn head_has_json(head: &[u8]) -> (r: bool)
    ensures
        r == spec_head_has_json(head@),
{
    let low = to_lower(head);
    let ct: Vec<u8> = vec![13u8, 10u8, 99u8, 111u8, 110u8, 116u8, 101u8, 110u8, 116u8, 45u8, 116u8, 121u8, 112u8, 101u8, 58u8];
    assert(ct@ =~= content_type_needle());
    let js: Vec<u8> = vec![97u8, 112u8, 112u8, 108u8, 105u8, 99u8, 97u8, 116u8, 105u8, 111u8, 110u8, 47u8, 106u8, 115u8, 111u8, 110u8];
    assert(js@ =~= json_needle());
    match find_match(low.as_slice(), ct.as_slice(), 0) {
        None => false,
        Some(i) => {
            let n = low.len();
            proof {
                lemma_find_match_some(low@, content_type_needle(), 0);
                assert(i + 15 <= n);
            }
            let v = skip_ws(low.as_slice(), i + 15);
            if v <= n && 16 <= n - v {
                is_match_at(low.as_slice(), js.as_slice(), v)
            } else {
                assert(!match_at(low@, json_needle(), v as int));
                false
            }
        },
    }
}

/// What an iteration learns from the received bytes of one exchange.
#[derive(Clone, Copy, PartialEq, Eq, Structural, Debug)]
pub struct ResponseSummary {
    /// Status code from the status line.
    pub status: u16,
    /// Offset of the first body byte.
    pub body_start: usize,
    /// Whether the head declares a JSON body.
    pub body_is_json: bool,
}

/// Whether the received bytes begin with a well-formed HTTP/1.x status
/// line: `HTTP/1.` and a digit, a space, three status digits, and a
/// space or line end after them.
pub open spec fn spec_status_line_ok(b: Seq<u8>) -> bool {
    &&& b.len() >= 13
    &&& b[0] == 72
    &&& b[1] == 84
    &&& b[2] == 84
    &&& b[3] == 80
    &&& b[4] == 47
    &&& b[5] == 49
    &&& b[6] == 46
    &&& is_digit_byte(b[7])
    &&& b[8] == 32
    &&& is_digit_byte(b[9])
    &&& is_digit_byte(b[10])
    &&& is_digit_byte(b[11])
    &&& (b[12] == 32 || b[12] == 13)
}

/// The status code spelled by the three digits of the status line.
pub open spec fn spec_status_of(b: Seq<u8>) -> int {
    100 * digit_val(b[9]) + 10 * digit_val(b[10]) + digit_val(b[11])
}

/// What parsing the received bytes of one exchange yields: the status
/// code, where the body starts (after the first blank line), and whether
/// the head declares a JSON body.  Bytes without a well-formed status
/// line or without a complete head are rejected.
pub open spec fn spec_parse_response(b: Seq<u8>) -> Option<ResponseSummary> {
    if !spec_status_line_ok(b) {
        None
    } else {
        match find_match_from(b, head_end_needle(), 0) {
            None => None,
            Some(h) => Some(
                ResponseSummary {
                    status: spec_status_of(b) as u16,
                    body_start: (h + 4) as usize,
                    body_is_json: spec_head_has_json(b.take(h + 2)),
                },
            ),
        }
    }
}

/// A parsed response's body offset lies within the parsed bytes.
pub proof fn lemma_parse_response_bounds(b: Seq<u8>)
    requires
        b.len() <= usize::MAX,
        spec_parse_response(b) is Some,
    ensures
        (spec_parse_response(b)->Some_0).body_start <= b.len(),
{
    lemma_find_match_some(b, head_end_needle(), 0);
}

/// Parses the received bytes of one exchange.
pub fn parse_response(b: &[u8]) -> (r: Option<ResponseSummary>)
    ensures
        r == spec_parse_response(b@),
{
    let n = b.len();
    if n < 13 {
        return None;
    }
    if !(b[0] == 72 && b[1] == 84 && b[2] == 84 && b[3] == 80 && b[4] == 47 && b[5] == 49 && b[6]
        == 46) {
        return None;
    }
    if b[7] < 48 || b[7] > 57 || b[8] != 32 {
        return None;
    }
    if b[9] < 48 || b[9] > 57 || b[10] < 48 || b[10] > 57 || b[11] < 48 || b[11] > 57 {
        return None;
    }
    if !(b[12] == 32 || b[12] == 13) {
        return None;
    }
    let status: u16 = 100 * ((b[9] - 48) as u16) + 10 * ((b[10] - 48) as u16) + ((b[11] - 48) as u16);
    let sep: Vec<u8> = vec![13u8, 10u8, 13u8, 10u8];
    assert(sep@ =~= head_end_needle());
    match find_match(b, sep.as_slice(), 0) {
        None => None,
        Some(h) => {
            proof {
                lemma_find_match_some(b@, head_end_needle(), 0);
                assert(h + 4 <= n);
            }
            let head = vstd::slice::slice_subrange(b, 0, h + 2);
            assert(head@ =~= b@.take(h + 2));
            let body_is_json = head_has_json(head);
            Some(ResponseSummary { status, body_start: h + 4, body_is_json })
        },
    }
}

/// Whether a status code counts as success.
pub open spec fn spec_is_success(s: u16) -> bool {
    200 <= s && s < 300
}

/// Decides whether a status code counts as success.
pub fn is_success_status(s: u16) -> (r: bool)
    ensures
        r == spec_is_success(s),
{
    200 <= s && s < 300
}

/// Copies the body of a response out of the received bytes.
pub fn response_body(recv: &[u8], body_start: usize) -> (r: Vec<u8>)
    requires
        body_start <= recv@.len(),
    ensures
        r@ == recv@.subrange(body_start as int, recv@.len() as int),
{
    let n = recv.len();
    let mut out: Vec<u8> = Vec::new();
    let mut k: usize = body_start;
    while k < n
        invariant
            body_start <= k <= n,
            n == recv@.len(),
            out@ == recv@.subrange(body_start as int, k as int),
        decreases n - k,
    {
        out.push(recv[k]);
        k = k + 1;
        assert(recv@.subrange(body_start as int, k as int) =~= recv@.subrange(
            body_start as int,
            k - 1,
        ) + seq![recv@[k - 1]]);
    }
    out
}

} // verus!
