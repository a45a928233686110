use vstd::prelude::*;
use crate::base64::{base64_encode, encode};
use crate::http::{headers_view, HttpRequest};
use crate::protocol::{contains_bytes, contains_subslice};
use crate::text::{append_bytes, bytes_eq, lower_bytes, to_ascii_lower};

verus! {

// ---------------------------------------------------------------------------
// Path normalisation

pub open spec fn is_hex_digit(c: u8) -> bool {
    (48 <= c && c <= 57) || (65 <= c && c <= 70) || (97 <= c && c <= 102)
}

pub open spec fn hex_value(c: u8) -> nat {
    if 48 <= c && c <= 57 {
        (c - 48) as nat
    } else if 65 <= c && c <= 70 {
        (c - 55) as nat
    } else {
        (c - 87) as nat
    }
}

/// Percent-decoding of `s[i..]`: `%XY` with two hex digits becomes one
/// byte; any other byte, a lone `%` included, stays as it is.
pub open spec fn pct_decode_from(s: Seq<u8>, i: int) -> Seq<u8>
    decreases s.len() - i,
{
    if i < 0 || i >= s.len() {
        Seq::empty()
    } else if s[i] == 37 && i + 2 < s.len() && is_hex_digit(s[i + 1]) && is_hex_digit(s[i + 2]) {
        seq![(hex_value(s[i + 1]) * 16 + hex_value(s[i + 2])) as u8] + pct_decode_from(s, i + 3)
    } else {
        seq![s[i]] + pct_decode_from(s, i + 1)
    }
}

pub open spec fn percent_decode(s: Seq<u8>) -> Seq<u8> {
    pct_decode_from(s, 0)
}

/// Runs of `/` reduced to one.
pub open spec fn collapse_slashes(s: Seq<u8>) -> Seq<u8>
    decreases s.len(),
{
    if s.len() == 0 {
        Seq::empty()
    } else {
        let c = collapse_slashes(s.drop_last());
        if s.last() == 47 && c.len() > 0 && c.last() == 47 {
            c
        } else {
            c.push(s.last())
        }
    }
}

pub open spec fn with_leading_slash(s: Seq<u8>) -> Seq<u8> {
    if s.len() > 0 && s[0] == 47 {
        s
    } else {
        seq![47u8] + s
    }
}

pub open spec fn dot_dot() -> Seq<u8> {
    seq![46u8, 46u8]
}

pub open spec fn backslash() -> Seq<u8> {
    seq![92u8]
}

/// The normalised path, or `None` when the decoded path tries to escape
/// (`..`) or uses a backslash.
pub open spec fn spec_normalize_path(p: Seq<u8>) -> Option<Seq<u8>> {
    let d = percent_decode(p);
    if contains_bytes(d, dot_dot()) || contains_bytes(d, backslash()) {
        None
    } else {
        Some(with_leading_slash(collapse_slashes(d)))
    }
}

fn hex_digit_value(c: u8) -> (r: Option<u8>)
    ensures
        r is Some <==> is_hex_digit(c),
        r is Some ==> r->0 as nat == hex_value(c) && r->0 < 16,
{
    if 48 <= c && c <= 57 {
        Some(c - 48)
    } else if 65 <= c && c <= 70 {
        Some(c - 55)
    } else if 97 <= c && c <= 102 {
        Some(c - 87)
    } else {
        None
    }
}

pub fn percent_decode_bytes(s: &[u8]) -> (r: Vec<u8>)
    ensures
        r@ == percent_decode(s@),
{
    let mut out: Vec<u8> = Vec::new();
    let mut i: usize = 0;
    let len = s.len();
    while i < len
        invariant
            len == s@.len(),
            i <= len,
            out@ + pct_decode_from(s@, i as int) == percent_decode(s@),
        decreases len - i,
    {
        let ghost before = out@;
        if s[i] == 37 && len - i > 2 {
            let h = hex_digit_value(s[i + 1]);
            let l = hex_digit_value(s[i + 2]);
            if h.is_some() && l.is_some() {
                let hv = h.unwrap();
                let lv = l.unwrap();
                out.push(hv * 16 + lv);
                assert(out@ + pct_decode_from(s@, i + 3) =~= before + pct_decode_from(s@, i as int));
                i = i + 3;
                continue;
            }
        }
        out.push(s[i]);
        assert(out@ + pct_decode_from(s@, i + 1) =~= before + pct_decode_from(s@, i as int));
        i = i + 1;
    }
    assert(pct_decode_from(s@, i as int) =~= Seq::empty());
    assert(out@ + pct_decode_from(s@, i as int) =~= out@);
    out
}

/// Normalises a request path: percent-decodes it, rejects `..` and `\`,
/// collapses runs of `/`, and makes sure it starts with `/`.
pub fn normalize_path(path: &[u8]) -> (r: Option<Vec<u8>>)
    ensures
        match spec_normalize_path(path@) {
            Some(p) => r is Some && r->0@ == p,
            None => r is None,
        },
{
    let decoded = percent_decode_bytes(path);
    let dd: Vec<u8> = vec![46, 46];
    let bs: Vec<u8> = vec![92];
    assert(dd@ =~= dot_dot());
    assert(bs@ =~= backslash());
    if contains_subslice(decoded.as_slice(), dd.as_slice()) || contains_subslice(decoded.as_slice(), bs.as_slice()) {
        return None;
    }
    let mut out: Vec<u8> = Vec::new();
    let mut i: usize = 0;
    while i < decoded.len()
        invariant
            i <= decoded@.len(),
            out@ == collapse_slashes(decoded@.subrange(0, i as int)),
        decreases decoded@.len() - i,
    {
        let c = decoded[i];
        let ghost next = decoded@.subrange(0, i + 1);
        assert(next.drop_last() =~= decoded@.subrange(0, i as int));
        if !(c == 47 && out.len() > 0 && out[out.len() - 1] == 47) {
            out.push(c);
        }
        i = i + 1;
    }
    assert(decoded@.subrange(0, decoded@.len() as int) =~= decoded@);
    if out.len() > 0 && out[0] == 47 {
        Some(out)
    } else {
        let mut p: Vec<u8> = vec![47];
        append_bytes(&mut p, out.as_slice());
        assert(p@ =~= seq![47u8] + out@);
        Some(p)
    }
}

/// Every rejected path decodes to something with `..` or `\`, and every
/// path whose decoded form holds either is rejected.
pub proof fn lemma_normalize_rejects_traversal(p: Seq<u8>)
    ensures
        spec_normalize_path(p) is None <==> (contains_bytes(percent_decode(p), dot_dot())
            || contains_bytes(percent_decode(p), backslash())),
{
}

// ---------------------------------------------------------------------------
// Upgrade request

pub open spec fn lit_get() -> Seq<u8> {
    seq![103u8, 101, 116]
}

pub open spec fn lit_upgrade() -> Seq<u8> {
    seq![117u8, 112, 103, 114, 97, 100, 101]
}

pub open spec fn lit_websocket() -> Seq<u8> {
    seq![119u8, 101, 98, 115, 111, 99, 107, 101, 116]
}

pub open spec fn lit_connection() -> Seq<u8> {
    seq![99u8, 111, 110, 110, 101, 99, 116, 105, 111, 110]
}

pub open spec fn lit_websocket_key() -> Seq<u8> {
    seq![115u8, 101, 99, 45, 119, 101, 98, 115, 111, 99, 107, 101, 116, 45, 107, 101, 121]
}

/// How a header value is tested.
#[derive(Debug, Clone, Copy, PartialEq, Eq, Structural)]
pub enum ValueTest {
    /// Any value.
    Present,
    /// The lower-cased value equals the pattern.
    Equals,
    /// The lower-cased value contains the pattern.
    Contains,
}

/// A header whose lower-cased name is `name` and whose value passes the test.
pub open spec fn header_matches(h: (Seq<u8>, Seq<u8>), name: Seq<u8>, test: ValueTest, pattern: Seq<u8>) -> bool {
    &&& lower_bytes(h.0) == name
    &&& match test {
        ValueTest::Present => true,
        ValueTest::Equals => lower_bytes(h.1) == pattern,
        ValueTest::Contains => contains_bytes(lower_bytes(h.1), pattern),
    }
}

pub open spec fn any_header(hs: Seq<(Seq<u8>, Seq<u8>)>, name: Seq<u8>, test: ValueTest, pattern: Seq<u8>) -> bool {
    exists|i: int| 0 <= i < hs.len() && header_matches(#[trigger] hs[i], name, test, pattern)
}

/// Index of the first matching header, if any.
pub fn find_header(headers: &Vec<(Vec<u8>, Vec<u8>)>, name: &[u8], test: ValueTest, pattern: &[u8]) -> (r: Option<usize>)
    ensures
        r is Some <==> any_header(headers_view(headers@), name@, test, pattern@),
        r is Some ==> r->0 < headers@.len() && header_matches(
            headers_view(headers@)[r->0 as int],
            name@,
            test,
            pattern@,
        ),
{
    let ghost hv = headers_view(headers@);
    let mut i: usize = 0;
    while i < headers.len()
        invariant
            i <= headers@.len(),
            hv == headers_view(headers@),
            forall|k: int| 0 <= k < i ==> !header_matches(#[trigger] hv[k], name@, test, pattern@),
        decreases headers@.len() - i,
    {
        let h = &headers[i];
        let key = to_ascii_lower(h.0.as_slice());
        if bytes_eq(key.as_slice(), name) {
            let ok = match test {
                ValueTest::Present => true,
                ValueTest::Equals => {
                    let v = to_ascii_lower(h.1.as_slice());
                    bytes_eq(v.as_slice(), pattern)
                },
                ValueTest::Contains => {
                    let v = to_ascii_lower(h.1.as_slice());
                    contains_subslice(v.as_slice(), pattern)
                },
            };
            if ok {
                assert(header_matches(hv[i as int], name@, test, pattern@));
                return Some(i);
            }
        }
        i = i + 1;
    }
    None
}

/// A WebSocket upgrade for the configured path: method GET, `Upgrade:
/// websocket`, a `Connection` header containing `upgrade` (case-insensitive),
/// a `Sec-WebSocket-Key`, and a path that normalises to `ws_path`.
pub open spec fn spec_is_websocket_upgrade(method: Seq<u8>, path: Seq<u8>, hs: Seq<(Seq<u8>, Seq<u8>)>, ws_path: Seq<u8>) -> bool {
    &&& lower_bytes(method) == lit_get()
    &&& any_header(hs, lit_upgrade(), ValueTest::Equals, lit_websocket())
    &&& any_header(hs, lit_connection(), ValueTest::Contains, lit_upgrade())
    &&& any_header(hs, lit_websocket_key(), ValueTest::Present, Seq::empty())
    &&& spec_normalize_path(path) == Some(ws_path)
}

pub fn is_websocket_upgrade(request: &HttpRequest, ws_path: &[u8]) -> (r: bool)
    ensures
        r == spec_is_websocket_upgrade(request.method@, request.path@, headers_view(request.headers@), ws_path@),
{
    let get: Vec<u8> = vec![103, 101, 116];
    let upgrade: Vec<u8> = vec![117, 112, 103, 114, 97, 100, 101];
    let websocket: Vec<u8> = vec![119, 101, 98, 115, 111, 99, 107, 101, 116];
    let connection: Vec<u8> = vec![99, 111, 110, 110, 101, 99, 116, 105, 111, 110];
    let key: Vec<u8> = vec![115, 101, 99, 45, 119, 101, 98, 115, 111, 99, 107, 101, 116, 45, 107, 101, 121];
    let empty: Vec<u8> = Vec::new();
    assert(get@ =~= lit_get());
    assert(upgrade@ =~= lit_upgrade());
    assert(websocket@ =~= lit_websocket());
    assert(connection@ =~= lit_connection());
    assert(key@ =~= lit_websocket_key());
    assert(empty@ =~= Seq::<u8>::empty());
    let method = to_ascii_lower(request.method.as_slice());
    if !bytes_eq(method.as_slice(), get.as_slice()) {
        return false;
    }
    if find_header(&request.headers, upgrade.as_slice(), ValueTest::Equals, websocket.as_slice()).is_none() {
        return false;
    }
    if find_header(&request.headers, connection.as_slice(), ValueTest::Contains, upgrade.as_slice()).is_none() {
        return false;
    }
    if find_header(&request.headers, key.as_slice(), ValueTest::Present, empty.as_slice()).is_none() {
        return false;
    }
    match normalize_path(request.path.as_slice()) {
        None => false,
        Some(p) => bytes_eq(p.as_slice(), ws_path),
    }
}

/// The value of the first `Sec-WebSocket-Key` header.
pub fn extract_websocket_key(request: &HttpRequest) -> (r: Option<Vec<u8>>)
    ensures
        r is Some <==> any_header(headers_view(request.headers@), lit_websocket_key(), ValueTest::Present, Seq::empty()),
        r is Some ==> exists|i: int|
            0 <= i < request.headers@.len() && lower_bytes(#[trigger] request.headers@[i].0@) == lit_websocket_key()
                && r->0@ == request.headers@[i].1@,
{
    let key: Vec<u8> = vec![115, 101, 99, 45, 119, 101, 98, 115, 111, 99, 107, 101, 116, 45, 107, 101, 121];
    let empty: Vec<u8> = Vec::new();
    assert(key@ =~= lit_websocket_key());
    assert(empty@ =~= Seq::<u8>::empty());
    match find_header(&request.headers, key.as_slice(), ValueTest::Present, empty.as_slice()) {
        None => None,
        Some(i) => {
            let v = crate::protocol::copy_range(request.headers[i].1.as_slice(), 0, request.headers[i].1.len());
            assert(request.headers@[i as int].1@.subrange(0, request.headers@[i as int].1@.len() as int) =~= request.headers@[i as int].1@);
            Some(v)
        },
    }
}

// ---------------------------------------------------------------------------
// Accept key

/// The GUID that RFC 6455 appends to the client key.
pub open spec fn websocket_guid() -> Seq<u8> {
    seq![
        50u8, 53, 56, 69, 65, 70, 65, 53, 45, 69, 57, 49, 52, 45, 52, 55, 68, 65, 45, 57, 53, 67, 65, 45, 67,
        53, 65, 66, 48, 68, 67, 56, 53, 66, 49, 49,
    ]
}

/// The SHA-1 digest of a byte string.
pub uninterp spec fn sha1_of(data: Seq<u8>) -> Seq<u8>;

/// Relies on `sha1::Sha1` (`Digest::digest`): the 20-byte SHA-1 digest of
/// the input.
#[verifier::external_body]
fn sha1_digest(data: &[u8]) -> (r: Vec<u8>)
    ensures
        r@ == sha1_of(data@),
        r@.len() == 20,
{
    <sha1::Sha1 as sha1::Digest>::digest(data).to_vec()
}

/// The accept value for a digest of key and GUID: its base64 form.
pub fn accept_key_from_digest(digest: &[u8]) -> (r: Vec<u8>)
    ensures
        r@ == base64_encode(digest@),
{
    encode(digest)
}

/// `Sec-WebSocket-Accept` for a client key: base64 of SHA-1 of the key
/// followed by the GUID.
pub fn compute_accept_key(key: &[u8]) -> (r: Vec<u8>)
    ensures
        r@ == base64_encode(sha1_of(key@ + websocket_guid())),
{
    let mut input: Vec<u8> = Vec::new();
    append_bytes(&mut input, key);
    let guid: Vec<u8> = vec![
        50, 53, 56, 69, 65, 70, 65, 53, 45, 69, 57, 49, 52, 45, 52, 55, 68, 65, 45, 57, 53, 67, 65, 45, 67,
        53, 65, 66, 48, 68, 67, 56, 53, 66, 49, 49,
    ];
    assert(guid@ =~= websocket_guid());
    append_bytes(&mut input, guid.as_slice());
    assert(input@ =~= key@ + websocket_guid());
    let digest = sha1_digest(input.as_slice());
    accept_key_from_digest(digest.as_slice())
}

/// The status line and headers that accept the upgrade.
pub open spec fn upgrade_response_head() -> Seq<u8> {
    seq![
        72u8, 84, 84, 80, 47, 49, 46, 49, 32, 49, 48, 49, 32, 83, 119, 105, 116, 99, 104, 105, 110, 103, 32,
        80, 114, 111, 116, 111, 99, 111, 108, 115, 13, 10, 85, 112, 103, 114, 97, 100, 101, 58, 32, 119, 101,
        98, 115, 111, 99, 107, 101, 116, 13, 10, 67, 111, 110, 110, 101, 99, 116, 105, 111, 110, 58, 32, 85,
        112, 103, 114, 97, 100, 101, 13, 10, 83, 101, 99, 45, 87, 101, 98, 83, 111, 99, 107, 101, 116, 45,
        65, 99, 99, 101, 112, 116, 58, 32,
    ]
}

/// `HTTP/1.1 101 Switching Protocols` with the accept value.
pub fn upgrade_response(accept: &[u8]) -> (r: Vec<u8>)
    ensures
        r@ == upgrade_response_head() + accept@ + seq![13u8, 10, 13, 10],
{
    let mut r: Vec<u8> = vec![
        72, 84, 84, 80, 47, 49, 46, 49, 32, 49, 48, 49, 32, 83, 119, 105, 116, 99, 104, 105, 110, 103, 32,
        80, 114, 111, 116, 111, 99, 111, 108, 115, 13, 10, 85, 112, 103, 114, 97, 100, 101, 58, 32, 119, 101,
        98, 115, 111, 99, 107, 101, 116, 13, 10, 67, 111, 110, 110, 101, 99, 116, 105, 111, 110, 58, 32, 85,
        112, 103, 114, 97, 100, 101, 13, 10, 83, 101, 99, 45, 87, 101, 98, 83, 111, 99, 107, 101, 116, 45,
        65, 99, 99, 101, 112, 116, 58, 32,
    ];
    assert(r@ =~= upgrade_response_head());
    append_bytes(&mut r, accept);
    let tail: Vec<u8> = vec![13, 10, 13, 10];
    append_bytes(&mut r, tail.as_slice());
    assert(tail@ =~= seq![13u8, 10, 13, 10]);
    r
}

/// The header name `origin`.
pub open spec fn lit_origin() -> Seq<u8> {
    seq![111u8, 114, 105, 103, 105, 110]
}

/// Index of the first header at or after `i` whose lower-cased name is
/// `name`, or the number of headers.
pub open spec fn first_header_index(hs: Seq<(Seq<u8>, Seq<u8>)>, name: Seq<u8>, i: int) -> int
    decreases hs.len() - i,
{
    if i < 0 || i >= hs.len() {
        hs.len() as int
    } else if lower_bytes(hs[i].0) == name {
        i
    } else {
        first_header_index(hs, name, i + 1)
    }
}

/// Whether a monitoring socket may be opened: with an expected origin
/// configured, the first `Origin` header, when there is one, must carry
/// exactly that value; without one, every origin is allowed.
pub open spec fn spec_origin_allowed(hs: Seq<(Seq<u8>, Seq<u8>)>, expected: Option<Seq<u8>>) -> bool {
    match expected {
        None => true,
        Some(e) => {
            let k = first_header_index(hs, lit_origin(), 0);
            k >= hs.len() || hs[k].1 == e
        },
    }
}

/// Checks the first `Origin` header of a request against the configured one.
pub fn is_allowed_origin(request: &HttpRequest, expected: Option<&[u8]>) -> (r: bool)
    ensures
        r == spec_origin_allowed(
            headers_view(request.headers@),
            match expected {
                Some(e) => Some(e@),
                None => None,
            },
        ),
{
    match expected {
        None => true,
        Some(e) => {
            let name: Vec<u8> = vec![111, 114, 105, 103, 105, 110];
            assert(name@ =~= lit_origin());
            let ghost hv = headers_view(request.headers@);
            let mut i: usize = 0;
            while i < request.headers.len()
                invariant
                    i <= request.headers@.len(),
                    hv == headers_view(request.headers@),
                    name@ == lit_origin(),
                    expected == Some(e),
                    first_header_index(hv, lit_origin(), 0) == first_header_index(hv, lit_origin(), i as int),
                decreases request.headers@.len() - i,
            {
                let key = to_ascii_lower(request.headers[i].0.as_slice());
                assert(hv[i as int].0 == request.headers@[i as int].0@);
                if bytes_eq(key.as_slice(), name.as_slice()) {
                    assert(hv[i as int].0 == request.headers@[i as int].0@);
                    assert(hv[i as int].1 == request.headers@[i as int].1@);
                    assert(first_header_index(hv, lit_origin(), i as int) == i);
                    return bytes_eq(request.headers[i].1.as_slice(), e);
                }
                i = i + 1;
            }
            true
        },
    }
}

} // verus!
