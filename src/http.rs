use vstd::prelude::*;
use vstd::string::StringSliceAdditionalSpecFns;
use crate::literals::{ext_css, ext_css_bytes, ext_eot, ext_eot_bytes, ext_html, ext_html_bytes, ext_jpeg, ext_jpeg_bytes, ext_jpg, ext_jpg_bytes, ext_js, ext_js_bytes, ext_json, ext_json_bytes, ext_png, ext_png_bytes, ext_svg, ext_svg_bytes, ext_ttf, ext_ttf_bytes, ext_woff, ext_woff2, ext_woff2_bytes, ext_woff_bytes, file_index, file_index_bytes, file_vite, file_vite_bytes, lit_app_eot, lit_app_eot_bytes, lit_app_js, lit_app_js_bytes, lit_app_json, lit_app_json_bytes, lit_colon_space, lit_colon_space_bytes, lit_connection_close, lit_connection_close_bytes, lit_content_length, lit_content_length_bytes, lit_content_type, lit_content_type_bytes, lit_crlf, lit_crlf_bytes, lit_csp, lit_csp_bytes, lit_csp_value, lit_csp_value_bytes, lit_font_ttf, lit_font_ttf_bytes, lit_font_woff2, lit_font_woff2_bytes, lit_http11, lit_http11_bytes, lit_image_jpeg, lit_image_jpeg_bytes, lit_image_png, lit_image_png_bytes, lit_image_svg, lit_image_svg_bytes, lit_nosniff, lit_nosniff_bytes, lit_not_found, lit_not_found_bytes, lit_octet, lit_octet_bytes, lit_ok, lit_ok_bytes, lit_referrer, lit_referrer_bytes, lit_referrer_value, lit_referrer_value_bytes, lit_sameorigin, lit_sameorigin_bytes, lit_text_css, lit_text_css_bytes, lit_text_html, lit_text_html_bytes, lit_unknown, lit_unknown_bytes, lit_xcto, lit_xcto_bytes, lit_xfo, lit_xfo_bytes, lit_xxss, lit_xxss_bytes, lit_xxss_value, lit_xxss_value_bytes, path_assets, path_assets_bytes, path_config, path_config_bytes, path_index, path_index_bytes, path_root, path_root_bytes, path_speed, path_speed_bytes, path_stats, path_stats_bytes, path_vite, path_vite_bytes};
use crate::text::{append_bytes, bytes_eq, decimal, decimal_bytes};

verus! {

/// The HTTP/1 method prefixes that mark a plaintext connection as HTTP.
pub open spec fn http_method_prefix(b: Seq<u8>) -> bool {
    b.len() >= 4 && (
    (b[0] == 71 && b[1] == 69 && b[2] == 84 && b[3] == 32) ||  // "GET "
    (b[0] == 80 && b[1] == 79 && b[2] == 83 && b[3] == 84) ||  // "POST"
    (b[0] == 72 && b[1] == 69 && b[2] == 65 && b[3] == 68) ||  // "HEAD"
    (b[0] == 80 && b[1] == 85 && b[2] == 84 && b[3] == 32) ||  // "PUT "
    (b[0] == 68 && b[1] == 69 && b[2] == 76 && b[3] == 69) ||  // "DELE"
    (b[0] == 79 && b[1] == 80 && b[2] == 84 && b[3] == 73) ||  // "OPTI"
    (b[0] == 80 && b[1] == 65 && b[2] == 84 && b[3] == 67) ||  // "PATC"
    (b[0] == 67 && b[1] == 79 && b[2] == 78 && b[3] == 78) ||  // "CONN"
    (b[0] == 84 && b[1] == 82 && b[2] == 65 && b[3] == 67))    // "TRAC"
}

/// The start of the HTTP/2 connection preface, "PRI".
pub open spec fn http2_preface_prefix(b: Seq<u8>) -> bool {
    b.len() >= 3 && b[0] == 80 && b[1] == 82 && b[2] == 73
}

pub open spec fn spec_is_http(b: Seq<u8>) -> bool {
    http_method_prefix(b) || http2_preface_prefix(b)
}

/// Whether the first bytes of a plaintext connection are an HTTP request.
pub fn is_http_request(data: &[u8]) -> (r: bool)
    ensures
        r == spec_is_http(data@),
{
    if data.len() < 3 {
        return false;
    }
    if data[0] == 80 && data[1] == 82 && data[2] == 73 {
        return true;
    }
    if data.len() < 4 {
        return false;
    }
    let (a, b, c, d) = (data[0], data[1], data[2], data[3]);
    (a == 71 && b == 69 && c == 84 && d == 32) || (a == 80 && b == 79 && c == 83 && d == 84) || (a
        == 72 && b == 69 && c == 65 && d == 68) || (a == 80 && b == 85 && c == 84 && d == 32) || (a
        == 68 && b == 69 && c == 76 && d == 69) || (a == 79 && b == 80 && c == 84 && d == 73) || (a
        == 80 && b == 65 && c == 84 && d == 67) || (a == 67 && b == 79 && c == 78 && d == 78) || (a
        == 84 && b == 82 && c == 65 && d == 67)
}

} // verus!

verus! {

/// ASCII whitespace: space, and tab through carriage return.
pub open spec fn is_space(c: u8) -> bool {
    c == 32 || (9 <= c && c <= 13)
}

/// Index of the first `\n` at or after `i`, or the length.
pub open spec fn line_end(b: Seq<u8>, i: int) -> int
    decreases b.len() - i,
{
    if i >= b.len() || i < 0 {
        b.len() as int
    } else if b[i] == 10 {
        i
    } else {
        line_end(b, i + 1)
    }
}

/// End of a line's content: a `\r` just before the `\n` is not part of it.
pub open spec fn content_end(b: Seq<u8>, s: int, e: int) -> int {
    if e < b.len() && e > s && b[e - 1] == 13 {
        e - 1
    } else {
        e
    }
}

/// First index in `[i, end)` that holds no whitespace, or `end`.
pub open spec fn skip_space(b: Seq<u8>, i: int, end: int) -> int
    decreases end - i,
{
    if i >= end {
        end
    } else if is_space(b[i]) {
        skip_space(b, i + 1, end)
    } else {
        i
    }
}

/// First index in `[i, end)` that holds whitespace, or `end`.
pub open spec fn token_end(b: Seq<u8>, i: int, end: int) -> int
    decreases end - i,
{
    if i >= end {
        end
    } else if !is_space(b[i]) {
        token_end(b, i + 1, end)
    } else {
        i
    }
}

/// End of `[s, e)` once trailing whitespace is dropped.
pub open spec fn trim_end(b: Seq<u8>, s: int, e: int) -> int
    decreases e - s,
{
    if e <= s {
        s
    } else if is_space(b[e - 1]) {
        trim_end(b, s, e - 1)
    } else {
        e
    }
}

/// `b[s..e]` without leading and trailing whitespace.
pub open spec fn trimmed(b: Seq<u8>, s: int, e: int) -> Seq<u8> {
    let s2 = skip_space(b, s, e);
    b.subrange(s2, trim_end(b, s2, e))
}

/// First index of byte `c` in `[i, end)`, or `end`.
pub open spec fn find_byte(b: Seq<u8>, c: u8, i: int, end: int) -> int
    decreases end - i,
{
    if i >= end {
        end
    } else if b[i] == c {
        i
    } else {
        find_byte(b, c, i + 1, end)
    }
}

/// The header lines from index `pos` up to the first empty line; a line
/// without a colon is skipped; name and value are trimmed.
pub open spec fn spec_headers(b: Seq<u8>, pos: int) -> Seq<(Seq<u8>, Seq<u8>)>
    decreases b.len() - pos,
{
    if pos >= b.len() || pos < 0 {
        Seq::empty()
    } else {
        let e = line_end(b, pos);
        let ce = content_end(b, pos, e);
        if ce <= pos || e < pos {
            Seq::empty()
        } else {
            let c = find_byte(b, 58, pos, ce);
            let rest = if e < b.len() {
                spec_headers(b, e + 1)
            } else {
                Seq::empty()
            };
            if c < ce {
                seq![(trimmed(b, pos, c), trimmed(b, c + 1, ce))] + rest
            } else {
                rest
            }
        }
    }
}

/// Why an HTTP request could not be parsed.
#[derive(Debug, Clone, Copy, PartialEq, Eq, Structural)]
pub enum HttpParseError {
    InvalidUtf8,
    EmptyRequest,
    InvalidRequestLine,
}

/// Parsed form of a request: `(method, path, headers)`.
pub open spec fn spec_parse(b: Seq<u8>) -> Result<(Seq<u8>, Seq<u8>, Seq<(Seq<u8>, Seq<u8>)>), HttpParseError> {
    if !vstd::utf8::valid_utf8(b) {
        Err(HttpParseError::InvalidUtf8)
    } else if b.len() == 0 {
        Err(HttpParseError::EmptyRequest)
    } else {
        let e0 = line_end(b, 0);
        let ce0 = content_end(b, 0, e0);
        let s1 = skip_space(b, 0, ce0);
        let e1 = token_end(b, s1, ce0);
        let s2 = skip_space(b, e1, ce0);
        let e2 = token_end(b, s2, ce0);
        if s1 >= ce0 || s2 >= ce0 {
            Err(HttpParseError::InvalidRequestLine)
        } else {
            Ok((b.subrange(s1, e1), b.subrange(s2, e2), spec_headers(b, e0 + 1)))
        }
    }
}

/// A parsed request head. Fields hold the raw bytes of the request.
#[derive(Debug, Clone)]
pub struct HttpRequest {
    pub method: Vec<u8>,
    pub path: Vec<u8>,
    pub headers: Vec<(Vec<u8>, Vec<u8>)>,
}

pub open spec fn headers_view(h: Seq<(Vec<u8>, Vec<u8>)>) -> Seq<(Seq<u8>, Seq<u8>)> {
    h.map_values(|p: (Vec<u8>, Vec<u8>)| (p.0@, p.1@))
}

/// Relies on `std::str::from_utf8`: it succeeds exactly on valid UTF-8.
#[verifier::external_body]
pub(crate) fn is_utf8(b: &[u8]) -> (r: bool)
    ensures
        r == vstd::utf8::valid_utf8(b@),
{
    std::str::from_utf8(b).is_ok()
}

fn line_end_exec(b: &[u8], i: usize) -> (r: usize)
    requires
        i <= b@.len(),
    ensures
        r == line_end(b@, i as int),
        i <= r <= b@.len(),
{
    let mut j = i;
    while j < b.len()
        invariant
            i <= j <= b@.len(),
            line_end(b@, i as int) == line_end(b@, j as int),
        decreases b@.len() - j,
    {
        if b[j] == 10 {
            return j;
        }
        j = j + 1;
    }
    j
}

fn skip_space_exec(b: &[u8], i: usize, end: usize) -> (r: usize)
    requires
        i <= end <= b@.len(),
    ensures
        r == skip_space(b@, i as int, end as int),
        i <= r <= end,
{
    let mut j = i;
    while j < end
        invariant
            i <= j <= end <= b@.len(),
            skip_space(b@, i as int, end as int) == skip_space(b@, j as int, end as int),
        decreases end - j,
    {
        if !(b[j] == 32 || (9 <= b[j] && b[j] <= 13)) {
            return j;
        }
        j = j + 1;
    }
    j
}

fn token_end_exec(b: &[u8], i: usize, end: usize) -> (r: usize)
    requires
        i <= end <= b@.len(),
    ensures
        r == token_end(b@, i as int, end as int),
        i <= r <= end,
{
    let mut j = i;
    while j < end
        invariant
            i <= j <= end <= b@.len(),
            token_end(b@, i as int, end as int) == token_end(b@, j as int, end as int),
        decreases end - j,
    {
        if b[j] == 32 || (9 <= b[j] && b[j] <= 13) {
            return j;
        }
        j = j + 1;
    }
    j
}

fn trim_end_exec(b: &[u8], s: usize, e: usize) -> (r: usize)
    requires
        s <= e <= b@.len(),
    ensures
        r == trim_end(b@, s as int, e as int),
        s <= r <= e,
{
    let mut j = e;
    while j > s
        invariant
            s <= j <= e <= b@.len(),
            trim_end(b@, s as int, e as int) == trim_end(b@, s as int, j as int),
        decreases j - s,
    {
        if !(b[j - 1] == 32 || (9 <= b[j - 1] && b[j - 1] <= 13)) {
            return j;
        }
        j = j - 1;
    }
    j
}

fn find_byte_exec(b: &[u8], c: u8, i: usize, end: usize) -> (r: usize)
    requires
        i <= end <= b@.len(),
    ensures
        r == find_byte(b@, c, i as int, end as int),
        i <= r <= end,
{
    let mut j = i;
    while j < end
        invariant
            i <= j <= end <= b@.len(),
            find_byte(b@, c, i as int, end as int) == find_byte(b@, c, j as int, end as int),
        decreases end - j,
    {
        if b[j] == c {
            return j;
        }
        j = j + 1;
    }
    j
}

/// `b[s..e]` without surrounding whitespace.
fn trimmed_exec(b: &[u8], s: usize, e: usize) -> (r: Vec<u8>)
    requires
        s <= e <= b@.len(),
    ensures
        r@ == trimmed(b@, s as int, e as int),
{
    let s2 = skip_space_exec(b, s, e);
    let e2 = trim_end_exec(b, s2, e);
    crate::protocol::copy_range(b, s2, e2)
}

/// Parses the request line and the header lines of an HTTP request.
pub fn parse_http_request(data: &[u8]) -> (r: Result<HttpRequest, HttpParseError>)
    ensures
        match spec_parse(data@) {
            Ok((m, p, h)) => r is Ok && r->Ok_0.method@ == m && r->Ok_0.path@ == p
                && headers_view(r->Ok_0.headers@) == h,
            Err(e) => r == Err::<HttpRequest, HttpParseError>(e),
        },
{
    if !is_utf8(data) {
        return Err(HttpParseError::InvalidUtf8);
    }
    if data.len() == 0 {
        return Err(HttpParseError::EmptyRequest);
    }
    let e0 = line_end_exec(data, 0);
    let ce0 = if e0 < data.len() && e0 > 0 && data[e0 - 1] == 13 {
        e0 - 1
    } else {
        e0
    };
    let s1 = skip_space_exec(data, 0, ce0);
    let e1 = token_end_exec(data, s1, ce0);
    let s2 = skip_space_exec(data, e1, ce0);
    let e2 = token_end_exec(data, s2, ce0);
    if s1 >= ce0 || s2 >= ce0 {
        return Err(HttpParseError::InvalidRequestLine);
    }
    let method = crate::protocol::copy_range(data, s1, e1);
    let path = crate::protocol::copy_range(data, s2, e2);
    let mut headers: Vec<(Vec<u8>, Vec<u8>)> = Vec::new();
    if e0 == data.len() {
        assert(headers_view(headers@) =~= spec_headers(data@, e0 + 1));
        return Ok(HttpRequest { method, path, headers });
    }
    let mut pos: usize = e0 + 1;
    let ghost start = pos as int;
    let mut done = false;
    while pos < data.len() && !done
        invariant
            start <= pos <= data@.len() + 1,
            done ==> spec_headers(data@, pos as int) == Seq::<(Seq<u8>, Seq<u8>)>::empty(),
            spec_headers(data@, start) == headers_view(headers@) + spec_headers(data@, pos as int),
        decreases data@.len() + 1 - pos, (if done { 0int } else { 1int }),
    {
        let e = line_end_exec(data, pos);
        let ce = if e < data.len() && e > pos && data[e - 1] == 13 {
            e - 1
        } else {
            e
        };
        if ce <= pos {
            assert(spec_headers(data@, pos as int) =~= Seq::empty());
            done = true;
            continue;
        }
        let c = find_byte_exec(data, 58, pos, ce);
        let ghost before = headers_view(headers@);
        let ghost rest = spec_headers(data@, e + 1);
        if c < ce {
            let name = trimmed_exec(data, pos, c);
            let value = trimmed_exec(data, c + 1, ce);
            headers.push((name, value));
            assert(headers_view(headers@) =~= before.push((trimmed(data@, pos as int, c as int), trimmed(data@, c + 1, ce as int))));
            assert(spec_headers(data@, pos as int) =~= seq![(trimmed(data@, pos as int, c as int), trimmed(data@, c + 1, ce as int))] + rest);
            assert(headers_view(headers@) + rest =~= before + (seq![(trimmed(data@, pos as int, c as int), trimmed(data@, c + 1, ce as int))] + rest));
        } else {
            assert(spec_headers(data@, pos as int) == rest);
        }
        if e >= data.len() {
            assert(spec_headers(data@, e as int) =~= rest);
            pos = e;
        } else {
            pos = e + 1;
        }
    }
    proof {
        if pos >= data@.len() {
            assert(spec_headers(data@, pos as int) =~= Seq::<(Seq<u8>, Seq<u8>)>::empty());
        }
    }
    assert(headers_view(headers@) + spec_headers(data@, pos as int) =~= headers_view(headers@));
    Ok(HttpRequest { method, path, headers })
}

} // verus!

verus! {

pub open spec fn status_text(status: u16) -> Seq<u8> {
    if status == 200 {
        lit_ok()
    } else if status == 404 {
        lit_not_found()
    } else {
        lit_unknown()
    }
}

/// Header lines `Name: value\r\n`, in order.
pub open spec fn header_lines(h: Seq<(Seq<u8>, Seq<u8>)>) -> Seq<u8>
    decreases h.len(),
{
    if h.len() == 0 {
        Seq::empty()
    } else {
        header_lines(h.drop_last()) + h.last().0 + lit_colon_space() + h.last().1 + lit_crlf()
    }
}

/// A complete response: status line, content type and length, `Connection:
/// close`, the extra headers, a blank line, the body.
pub open spec fn spec_response_bytes(status: u16, content_type: Seq<u8>, headers: Seq<(Seq<u8>, Seq<u8>)>, body: Seq<u8>) -> Seq<u8> {
    lit_http11() + decimal(status as nat) + seq![32u8] + status_text(status) + lit_content_type() + content_type
        + lit_content_length() + decimal(body.len()) + lit_connection_close() + header_lines(headers) + lit_crlf()
        + body
}

/// The hardening headers sent with every response.
pub open spec fn security_headers() -> Seq<(Seq<u8>, Seq<u8>)> {
    seq![
        (lit_xcto(), lit_nosniff()),
        (lit_xfo(), lit_sameorigin()),
        (lit_csp(), lit_csp_value()),
        (lit_referrer(), lit_referrer_value()),
        (lit_xxss(), lit_xxss_value()),
    ]
}

/// Builds an HTTP/1.1 response.
pub struct HttpResponseBuilder {
    pub status: u16,
    pub content_type: Vec<u8>,
    pub headers: Vec<(Vec<u8>, Vec<u8>)>,
    pub body: Vec<u8>,
}

impl HttpResponseBuilder {
    pub fn new(status: u16, content_type: &[u8]) -> (r: HttpResponseBuilder)
        ensures
            r.status == status,
            r.content_type@ == content_type@,
            r.headers@.len() == 0,
            r.body@.len() == 0,
    {
        let ct = crate::protocol::copy_range(content_type, 0, content_type.len());
        assert(content_type@.subrange(0, content_type@.len() as int) =~= content_type@);
        HttpResponseBuilder { status, content_type: ct, headers: Vec::new(), body: Vec::new() }
    }

    pub fn header(self, name: &[u8], value: &[u8]) -> (r: HttpResponseBuilder)
        ensures
            r.status == self.status,
            r.content_type@ == self.content_type@,
            r.body@ == self.body@,
            headers_view(r.headers@) == headers_view(self.headers@).push((name@, value@)),
    {
        let mut s = self;
        let n = crate::protocol::copy_range(name, 0, name.len());
        let v = crate::protocol::copy_range(value, 0, value.len());
        assert(name@.subrange(0, name@.len() as int) =~= name@);
        assert(value@.subrange(0, value@.len() as int) =~= value@);
        let ghost before = headers_view(s.headers@);
        s.headers.push((n, v));
        assert(headers_view(s.headers@) =~= before.push((name@, value@)));
        s
    }

    pub fn security_headers(self) -> (r: HttpResponseBuilder)
        ensures
            r.status == self.status,
            r.content_type@ == self.content_type@,
            r.body@ == self.body@,
            headers_view(r.headers@) == headers_view(self.headers@) + security_headers(),
    {
        let ghost before = headers_view(self.headers@);
        let r = self.header(lit_xcto_bytes().as_slice(), lit_nosniff_bytes().as_slice()).header(
            lit_xfo_bytes().as_slice(),
            lit_sameorigin_bytes().as_slice(),
        ).header(lit_csp_bytes().as_slice(), lit_csp_value_bytes().as_slice()).header(
            lit_referrer_bytes().as_slice(),
            lit_referrer_value_bytes().as_slice(),
        ).header(lit_xxss_bytes().as_slice(), lit_xxss_value_bytes().as_slice());
        assert(headers_view(r.headers@) =~= before + security_headers());
        r
    }

    pub fn body(self, body: &[u8]) -> (r: HttpResponseBuilder)
        ensures
            r.status == self.status,
            r.content_type@ == self.content_type@,
            r.headers@ == self.headers@,
            r.body@ == body@,
    {
        let mut s = self;
        s.body = crate::protocol::copy_range(body, 0, body.len());
        assert(body@.subrange(0, body@.len() as int) =~= body@);
        s
    }

    pub fn build(self) -> (r: Vec<u8>)
        ensures
            r@ == spec_response_bytes(self.status, self.content_type@, headers_view(self.headers@), self.body@),
    {
        let mut out = lit_http11_bytes();
        append_bytes(&mut out, decimal_bytes(self.status as u64).as_slice());
        out.push(32);
        let text = if self.status == 200 {
            lit_ok_bytes()
        } else if self.status == 404 {
            lit_not_found_bytes()
        } else {
            lit_unknown_bytes()
        };
        append_bytes(&mut out, text.as_slice());
        append_bytes(&mut out, lit_content_type_bytes().as_slice());
        append_bytes(&mut out, self.content_type.as_slice());
        append_bytes(&mut out, lit_content_length_bytes().as_slice());
        append_bytes(&mut out, decimal_bytes(self.body.len() as u64).as_slice());
        append_bytes(&mut out, lit_connection_close_bytes().as_slice());
        let ghost prefix = out@;
        let mut i: usize = 0;
        while i < self.headers.len()
            invariant
                i <= self.headers@.len(),
                out@ == prefix + header_lines(headers_view(self.headers@).subrange(0, i as int)),
            decreases self.headers@.len() - i,
        {
            let ghost hv = headers_view(self.headers@);
            assert(hv.subrange(0, i + 1).drop_last() =~= hv.subrange(0, i as int));
            append_bytes(&mut out, self.headers[i].0.as_slice());
            append_bytes(&mut out, lit_colon_space_bytes().as_slice());
            append_bytes(&mut out, self.headers[i].1.as_slice());
            append_bytes(&mut out, lit_crlf_bytes().as_slice());
            i = i + 1;
            assert(out@ =~= prefix + header_lines(hv.subrange(0, i as int)));
        }
        assert(headers_view(self.headers@).subrange(0, i as int) =~= headers_view(self.headers@));
        append_bytes(&mut out, lit_crlf_bytes().as_slice());
        append_bytes(&mut out, self.body.as_slice());
        assert(out@ =~= spec_response_bytes(self.status, self.content_type@, headers_view(self.headers@), self.body@));
        out
    }
}

/// A response with the hardening headers and a text body.
pub fn create_http_response(status: u16, content_type: &str, body: &str) -> (r: Vec<u8>)
    ensures
        r@ == spec_response_bytes(status, content_type.spec_bytes(), security_headers(), body.spec_bytes()),
{
    create_http_response_bytes(status, content_type, body.as_bytes())
}

/// A response with the hardening headers and a binary body.
pub fn create_http_response_bytes(status: u16, content_type: &str, body: &[u8]) -> (r: Vec<u8>)
    ensures
        r@ == spec_response_bytes(status, content_type.spec_bytes(), security_headers(), body@),
{
    let b = HttpResponseBuilder::new(status, content_type.as_bytes()).security_headers().body(body);
    assert(headers_view(b.headers@) =~= security_headers());
    b.build()
}

// ---------------------------------------------------------------------------
// Content types and routes of the monitoring endpoints

/// Index of the last `c` in `b[0..end]`, or -1.
pub open spec fn last_index_of(b: Seq<u8>, c: u8, end: int) -> int
    decreases end,
{
    if end <= 0 {
        -1
    } else if b[end - 1] == c {
        end - 1
    } else {
        last_index_of(b, c, end - 1)
    }
}

fn last_index_of_exec(b: &[u8], c: u8) -> (r: Option<usize>)
    ensures
        match r {
            Some(i) => last_index_of(b@, c, b@.len() as int) == i as int,
            None => last_index_of(b@, c, b@.len() as int) == -1,
        },
{
    let mut j = b.len();
    while j > 0
        invariant
            j <= b@.len(),
            last_index_of(b@, c, b@.len() as int) == last_index_of(b@, c, j as int),
        decreases j,
    {
        if b[j - 1] == c {
            return Some(j - 1);
        }
        j = j - 1;
    }
    None
}

/// The extension of the last path segment: the bytes after its last dot,
/// when that dot is not the segment's first byte.
pub open spec fn extension_of(path: Seq<u8>) -> Option<Seq<u8>> {
    let name = path.subrange(last_index_of(path, 47, path.len() as int) + 1, path.len() as int);
    let d = last_index_of(name, 46, name.len() as int);
    if d <= 0 {
        None
    } else {
        Some(name.subrange(d + 1, name.len() as int))
    }
}

pub proof fn lemma_last_index_bounds(b: Seq<u8>, c: u8, end: int)
    requires
        0 <= end <= b.len(),
    ensures
        -1 <= last_index_of(b, c, end) < end,
    decreases end,
{
    if end > 0 && b[end - 1] != c {
        lemma_last_index_bounds(b, c, end - 1);
    }
}

pub fn extension(path: &[u8]) -> (r: Option<Vec<u8>>)
    ensures
        match extension_of(path@) {
            Some(e) => r is Some && r->0@ == e,
            None => r is None,
        },
{
    proof {
        lemma_last_index_bounds(path@, 47, path@.len() as int);
    }
    let n = path.len();
    let start = match last_index_of_exec(path, 47) {
        Some(i) => if i < n {
            i + 1
        } else {
            n
        },
        None => 0,
    };
    let name = crate::protocol::copy_range(path, start, path.len());
    proof {
        lemma_last_index_bounds(name@, 46, name@.len() as int);
    }
    match last_index_of_exec(name.as_slice(), 46) {
        Some(d) => if d == 0 {
            None
        } else {
            Some(crate::protocol::copy_range(name.as_slice(), d + 1, name.len()))
        },
        None => None,
    }
}

/// The content type that a file extension implies.
pub open spec fn content_type_for(ext: Option<Seq<u8>>) -> Seq<u8> {
    match ext {
        None => lit_octet(),
        Some(e) => if e == ext_html() {
            lit_text_html()
        } else if e == ext_css() {
            lit_text_css()
        } else if e == ext_js() {
            lit_app_js()
        } else if e == ext_svg() {
            lit_image_svg()
        } else if e == ext_png() {
            lit_image_png()
        } else if e == ext_jpg() || e == ext_jpeg() {
            lit_image_jpeg()
        } else if e == ext_woff() || e == ext_woff2() {
            lit_font_woff2()
        } else if e == ext_ttf() {
            lit_font_ttf()
        } else if e == ext_eot() {
            lit_app_eot()
        } else if e == ext_json() {
            lit_app_json()
        } else {
            lit_octet()
        },
    }
}

pub fn guess_content_type(path: &[u8]) -> (r: Vec<u8>)
    ensures
        r@ == content_type_for(extension_of(path@)),
{
    match extension(path) {
        None => lit_octet_bytes(),
        Some(e) => {
            let e = e.as_slice();
            if bytes_eq(e, ext_html_bytes().as_slice()) {
                lit_text_html_bytes()
            } else if bytes_eq(e, ext_css_bytes().as_slice()) {
                lit_text_css_bytes()
            } else if bytes_eq(e, ext_js_bytes().as_slice()) {
                lit_app_js_bytes()
            } else if bytes_eq(e, ext_svg_bytes().as_slice()) {
                lit_image_svg_bytes()
            } else if bytes_eq(e, ext_png_bytes().as_slice()) {
                lit_image_png_bytes()
            } else if bytes_eq(e, ext_jpg_bytes().as_slice()) || bytes_eq(e, ext_jpeg_bytes().as_slice()) {
                lit_image_jpeg_bytes()
            } else if bytes_eq(e, ext_woff_bytes().as_slice()) || bytes_eq(e, ext_woff2_bytes().as_slice()) {
                lit_font_woff2_bytes()
            } else if bytes_eq(e, ext_ttf_bytes().as_slice()) {
                lit_font_ttf_bytes()
            } else if bytes_eq(e, ext_eot_bytes().as_slice()) {
                lit_app_eot_bytes()
            } else if bytes_eq(e, ext_json_bytes().as_slice()) {
                lit_app_json_bytes()
            } else {
                lit_octet_bytes()
            }
        },
    }
}

/// What a request path of the monitoring server asks for.
pub enum HttpRoute {
    /// An embedded file, by name, with its content type.
    StaticFile { name: Vec<u8>, content_type: Vec<u8> },
    /// Current statistics as JSON.
    Stats,
    /// Speed history as JSON.
    SpeedHistory,
    /// The monitoring settings as JSON.
    MonitoringSettings,
    /// Anything else: 404.
    NotFound,
}

pub ghost enum RouteSpec {
    StaticFile(Seq<u8>, Seq<u8>),
    Stats,
    SpeedHistory,
    MonitoringSettings,
    NotFound,
}

impl View for HttpRoute {
    type V = RouteSpec;

    open spec fn view(&self) -> RouteSpec {
        match self {
            HttpRoute::StaticFile { name, content_type } => RouteSpec::StaticFile(name@, content_type@),
            HttpRoute::Stats => RouteSpec::Stats,
            HttpRoute::SpeedHistory => RouteSpec::SpeedHistory,
            HttpRoute::MonitoringSettings => RouteSpec::MonitoringSettings,
            HttpRoute::NotFound => RouteSpec::NotFound,
        }
    }
}

/// `p` without its leading slashes.
pub open spec fn strip_leading_slashes(p: Seq<u8>) -> Seq<u8>
    decreases p.len(),
{
    if p.len() > 0 && p[0] == 47 {
        strip_leading_slashes(p.drop_first())
    } else {
        p
    }
}

pub open spec fn spec_route(path: Seq<u8>) -> RouteSpec {
    if path == path_root() || path == path_index() {
        RouteSpec::StaticFile(file_index(), lit_text_html())
    } else if path.len() >= 8 && path.subrange(0, 8) == path_assets() {
        let rel = strip_leading_slashes(path);
        RouteSpec::StaticFile(rel, content_type_for(extension_of(rel)))
    } else if path == path_vite() {
        RouteSpec::StaticFile(file_vite(), lit_image_svg())
    } else if path == path_stats() {
        RouteSpec::Stats
    } else if path == path_speed() {
        RouteSpec::SpeedHistory
    } else if path == path_config() {
        RouteSpec::MonitoringSettings
    } else {
        RouteSpec::NotFound
    }
}

fn strip_leading_slashes_exec(p: &[u8]) -> (r: Vec<u8>)
    ensures
        r@ == strip_leading_slashes(p@),
{
    let mut i: usize = 0;
    assert(p@.subrange(0, p@.len() as int) =~= p@);
    while i < p.len() && p[i] == 47
        invariant
            i <= p@.len(),
            strip_leading_slashes(p@) == strip_leading_slashes(p@.subrange(i as int, p@.len() as int)),
        decreases p@.len() - i,
    {
        assert(p@.subrange(i as int, p@.len() as int).drop_first() =~= p@.subrange(i + 1, p@.len() as int));
        i = i + 1;
    }
    let r = crate::protocol::copy_range(p, i, p.len());
    r
}

/// Chooses the monitoring endpoint for a request path.
pub fn route_http(path: &[u8]) -> (r: HttpRoute)
    ensures
        r@ == spec_route(path@),
{
    if bytes_eq(path, path_root_bytes().as_slice()) || bytes_eq(path, path_index_bytes().as_slice()) {
        return HttpRoute::StaticFile { name: file_index_bytes(), content_type: lit_text_html_bytes() };
    }
    if path.len() >= 8 {
        let head = crate::protocol::copy_range(path, 0, 8);
        if bytes_eq(head.as_slice(), path_assets_bytes().as_slice()) {
            let rel = strip_leading_slashes_exec(path);
            let ct = guess_content_type(rel.as_slice());
            return HttpRoute::StaticFile { name: rel, content_type: ct };
        }
    }
    if bytes_eq(path, path_vite_bytes().as_slice()) {
        HttpRoute::StaticFile { name: file_vite_bytes(), content_type: lit_image_svg_bytes() }
    } else if bytes_eq(path, path_stats_bytes().as_slice()) {
        HttpRoute::Stats
    } else if bytes_eq(path, path_speed_bytes().as_slice()) {
        HttpRoute::SpeedHistory
    } else if bytes_eq(path, path_config_bytes().as_slice()) {
        HttpRoute::MonitoringSettings
    } else {
        HttpRoute::NotFound
    }
}

} // verus!
