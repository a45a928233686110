use vstd::prelude::*;

verus! {

/// `HTTP/1.1 `
pub open spec fn lit_http11() -> Seq<u8> {
    seq![72u8, 84, 84, 80, 47, 49, 46, 49, 32]
}

pub(crate) fn lit_http11_bytes() -> (r: Vec<u8>)
    ensures
        r@ == lit_http11(),
{
    let r: Vec<u8> = vec![72, 84, 84, 80, 47, 49, 46, 49, 32];
    assert(r@ =~= lit_http11());
    r
}

/// `OK`
pub open spec fn lit_ok() -> Seq<u8> {
    seq![79u8, 75]
}

pub(crate) fn lit_ok_bytes() -> (r: Vec<u8>)
    ensures
        r@ == lit_ok(),
{
    let r: Vec<u8> = vec![79, 75];
    assert(r@ =~= lit_ok());
    r
}

/// `Not Found`
pub open spec fn lit_not_found() -> Seq<u8> {
    seq![78u8, 111, 116, 32, 70, 111, 117, 110, 100]
}

pub(crate) fn lit_not_found_bytes() -> (r: Vec<u8>)
    ensures
        r@ == lit_not_found(),
{
    let r: Vec<u8> = vec![78, 111, 116, 32, 70, 111, 117, 110, 100];
    assert(r@ =~= lit_not_found());
    r
}

/// `Unknown`
pub open spec fn lit_unknown() -> Seq<u8> {
    seq![85u8, 110, 107, 110, 111, 119, 110]
}

pub(crate) fn lit_unknown_bytes() -> (r: Vec<u8>)
    ensures
        r@ == lit_unknown(),
{
    let r: Vec<u8> = vec![85, 110, 107, 110, 111, 119, 110];
    assert(r@ =~= lit_unknown());
    r
}

/// `\r\nContent-Type: `
pub open spec fn lit_content_type() -> Seq<u8> {
    seq![13u8, 10, 67, 111, 110, 116, 101, 110, 116, 45, 84, 121, 112, 101, 58, 32]
}

pub(crate) fn lit_content_type_bytes() -> (r: Vec<u8>)
    ensures
        r@ == lit_content_type(),
{
    let r: Vec<u8> = vec![13, 10, 67, 111, 110, 116, 101, 110, 116, 45, 84, 121, 112, 101, 58, 32];
    assert(r@ =~= lit_content_type());
    r
}

/// `\r\nContent-Length: `
pub open spec fn lit_content_length() -> Seq<u8> {
    seq![13u8, 10, 67, 111, 110, 116, 101, 110, 116, 45, 76, 101, 110, 103, 116, 104, 58, 32]
}

pub(crate) fn lit_content_length_bytes() -> (r: Vec<u8>)
    ensures
        r@ == lit_content_length(),
{
    let r: Vec<u8> = vec![13, 10, 67, 111, 110, 116, 101, 110, 116, 45, 76, 101, 110, 103, 116, 104, 58, 32];
    assert(r@ =~= lit_content_length());
    r
}

/// `\r\nConnection: close\r\n`
pub open spec fn lit_connection_close() -> Seq<u8> {
    seq![13u8, 10, 67, 111, 110, 110, 101, 99, 116, 105, 111, 110, 58, 32, 99, 108, 111, 115, 101, 13, 10]
}

pub(crate) fn lit_connection_close_bytes() -> (r: Vec<u8>)
    ensures
        r@ == lit_connection_close(),
{
    let r: Vec<u8> = vec![13, 10, 67, 111, 110, 110, 101, 99, 116, 105, 111, 110, 58, 32, 99, 108, 111, 115, 101, 13, 10];
    assert(r@ =~= lit_connection_close());
    r
}

/// `: `
pub open spec fn lit_colon_space() -> Seq<u8> {
    seq![58u8, 32]
}

pub(crate) fn lit_colon_space_bytes() -> (r: Vec<u8>)
    ensures
        r@ == lit_colon_space(),
{
    let r: Vec<u8> = vec![58, 32];
    assert(r@ =~= lit_colon_space());
    r
}

/// `\r\n`
pub open spec fn lit_crlf() -> Seq<u8> {
    seq![13u8, 10]
}

pub(crate) fn lit_crlf_bytes() -> (r: Vec<u8>)
    ensures
        r@ == lit_crlf(),
{
    let r: Vec<u8> = vec![13, 10];
    assert(r@ =~= lit_crlf());
    r
}

/// `X-Content-Type-Options`
pub open spec fn lit_xcto() -> Seq<u8> {
    seq![88u8, 45, 67, 111, 110, 116, 101, 110, 116, 45, 84, 121, 112, 101, 45, 79, 112, 116, 105, 111, 110, 115]
}

pub(crate) fn lit_xcto_bytes() -> (r: Vec<u8>)
    ensures
        r@ == lit_xcto(),
{
    let r: Vec<u8> = vec![88, 45, 67, 111, 110, 116, 101, 110, 116, 45, 84, 121, 112, 101, 45, 79, 112, 116, 105, 111, 110, 115];
    assert(r@ =~= lit_xcto());
    r
}

/// `nosniff`
pub open spec fn lit_nosniff() -> Seq<u8> {
    seq![110u8, 111, 115, 110, 105, 102, 102]
}

pub(crate) fn lit_nosniff_bytes() -> (r: Vec<u8>)
    ensures
        r@ == lit_nosniff(),
{
    let r: Vec<u8> = vec![110, 111, 115, 110, 105, 102, 102];
    assert(r@ =~= lit_nosniff());
    r
}

/// `X-Frame-Options`
pub open spec fn lit_xfo() -> Seq<u8> {
    seq![88u8, 45, 70, 114, 97, 109, 101, 45, 79, 112, 116, 105, 111, 110, 115]
}

pub(crate) fn lit_xfo_bytes() -> (r: Vec<u8>)
    ensures
        r@ == lit_xfo(),
{
    let r: Vec<u8> = vec![88, 45, 70, 114, 97, 109, 101, 45, 79, 112, 116, 105, 111, 110, 115];
    assert(r@ =~= lit_xfo());
    r
}

/// `SAMEORIGIN`
pub open spec fn lit_sameorigin() -> Seq<u8> {
    seq![83u8, 65, 77, 69, 79, 82, 73, 71, 73, 78]
}

pub(crate) fn lit_sameorigin_bytes() -> (r: Vec<u8>)
    ensures
        r@ == lit_sameorigin(),
{
    let r: Vec<u8> = vec![83, 65, 77, 69, 79, 82, 73, 71, 73, 78];
    assert(r@ =~= lit_sameorigin());
    r
}

/// `Content-Security-Policy`
pub open spec fn lit_csp() -> Seq<u8> {
    seq![67u8, 111, 110, 116, 101, 110, 116, 45, 83, 101, 99, 117, 114, 105, 116, 121, 45, 80, 111, 108, 105, 99, 121]
}

pub(crate) fn lit_csp_bytes() -> (r: Vec<u8>)
    ensures
        r@ == lit_csp(),
{
    let r: Vec<u8> = vec![67, 111, 110, 116, 101, 110, 116, 45, 83, 101, 99, 117, 114, 105, 116, 121, 45, 80, 111, 108, 105, 99, 121];
    assert(r@ =~= lit_csp());
    r
}

/// `default-src 'self'; script-src 'self' 'unsafe-inline' 'unsafe-eval'; style-src 'self' 'unsafe-inline'; img-src 'self' data:; font-src 'self' data:;`
pub open spec fn lit_csp_value() -> Seq<u8> {
    seq![100u8, 101, 102, 97, 117, 108, 116, 45, 115, 114, 99, 32, 39, 115, 101, 108, 102, 39, 59, 32, 115, 99, 114, 105, 112, 116, 45, 115, 114, 99, 32, 39, 115, 101, 108, 102, 39, 32, 39, 117, 110, 115, 97, 102, 101, 45, 105, 110, 108, 105, 110, 101, 39, 32, 39, 117, 110, 115, 97, 102, 101, 45, 101, 118, 97, 108, 39, 59, 32, 115, 116, 121, 108, 101, 45, 115, 114, 99, 32, 39, 115, 101, 108, 102, 39, 32, 39, 117, 110, 115, 97, 102, 101, 45, 105, 110, 108, 105, 110, 101, 39, 59, 32, 105, 109, 103, 45, 115, 114, 99, 32, 39, 115, 101, 108, 102, 39, 32, 100, 97, 116, 97, 58, 59, 32, 102, 111, 110, 116, 45, 115, 114, 99, 32, 39, 115, 101, 108, 102, 39, 32, 100, 97, 116, 97, 58, 59]
}

pub(crate) fn lit_csp_value_bytes() -> (r: Vec<u8>)
    ensures
        r@ == lit_csp_value(),
{
    let r: Vec<u8> = vec![100, 101, 102, 97, 117, 108, 116, 45, 115, 114, 99, 32, 39, 115, 101, 108, 102, 39, 59, 32, 115, 99, 114, 105, 112, 116, 45, 115, 114, 99, 32, 39, 115, 101, 108, 102, 39, 32, 39, 117, 110, 115, 97, 102, 101, 45, 105, 110, 108, 105, 110, 101, 39, 32, 39, 117, 110, 115, 97, 102, 101, 45, 101, 118, 97, 108, 39, 59, 32, 115, 116, 121, 108, 101, 45, 115, 114, 99, 32, 39, 115, 101, 108, 102, 39, 32, 39, 117, 110, 115, 97, 102, 101, 45, 105, 110, 108, 105, 110, 101, 39, 59, 32, 105, 109, 103, 45, 115, 114, 99, 32, 39, 115, 101, 108, 102, 39, 32, 100, 97, 116, 97, 58, 59, 32, 102, 111, 110, 116, 45, 115, 114, 99, 32, 39, 115, 101, 108, 102, 39, 32, 100, 97, 116, 97, 58, 59];
    assert(r@ =~= lit_csp_value());
    r
}

/// `Referrer-Policy`
pub open spec fn lit_referrer() -> Seq<u8> {
    seq![82u8, 101, 102, 101, 114, 114, 101, 114, 45, 80, 111, 108, 105, 99, 121]
}

pub(crate) fn lit_referrer_bytes() -> (r: Vec<u8>)
    ensures
        r@ == lit_referrer(),
{
    let r: Vec<u8> = vec![82, 101, 102, 101, 114, 114, 101, 114, 45, 80, 111, 108, 105, 99, 121];
    assert(r@ =~= lit_referrer());
    r
}

/// `strict-origin-when-cross-origin`
pub open spec fn lit_referrer_value() -> Seq<u8> {
    seq![115u8, 116, 114, 105, 99, 116, 45, 111, 114, 105, 103, 105, 110, 45, 119, 104, 101, 110, 45, 99, 114, 111, 115, 115, 45, 111, 114, 105, 103, 105, 110]
}

pub(crate) fn lit_referrer_value_bytes() -> (r: Vec<u8>)
    ensures
        r@ == lit_referrer_value(),
{
    let r: Vec<u8> = vec![115, 116, 114, 105, 99, 116, 45, 111, 114, 105, 103, 105, 110, 45, 119, 104, 101, 110, 45, 99, 114, 111, 115, 115, 45, 111, 114, 105, 103, 105, 110];
    assert(r@ =~= lit_referrer_value());
    r
}

/// `X-XSS-Protection`
pub open spec fn lit_xxss() -> Seq<u8> {
    seq![88u8, 45, 88, 83, 83, 45, 80, 114, 111, 116, 101, 99, 116, 105, 111, 110]
}

pub(crate) fn lit_xxss_bytes() -> (r: Vec<u8>)
    ensures
        r@ == lit_xxss(),
{
    let r: Vec<u8> = vec![88, 45, 88, 83, 83, 45, 80, 114, 111, 116, 101, 99, 116, 105, 111, 110];
    assert(r@ =~= lit_xxss());
    r
}

/// `1; mode=block`
pub open spec fn lit_xxss_value() -> Seq<u8> {
    seq![49u8, 59, 32, 109, 111, 100, 101, 61, 98, 108, 111, 99, 107]
}

pub(crate) fn lit_xxss_value_bytes() -> (r: Vec<u8>)
    ensures
        r@ == lit_xxss_value(),
{
    let r: Vec<u8> = vec![49, 59, 32, 109, 111, 100, 101, 61, 98, 108, 111, 99, 107];
    assert(r@ =~= lit_xxss_value());
    r
}

/// `text/html`
pub open spec fn lit_text_html() -> Seq<u8> {
    seq![116u8, 101, 120, 116, 47, 104, 116, 109, 108]
}

pub(crate) fn lit_text_html_bytes() -> (r: Vec<u8>)
    ensures
        r@ == lit_text_html(),
{
    let r: Vec<u8> = vec![116, 101, 120, 116, 47, 104, 116, 109, 108];
    assert(r@ =~= lit_text_html());
    r
}

/// `text/css`
pub open spec fn lit_text_css() -> Seq<u8> {
    seq![116u8, 101, 120, 116, 47, 99, 115, 115]
}

pub(crate) fn lit_text_css_bytes() -> (r: Vec<u8>)
    ensures
        r@ == lit_text_css(),
{
    let r: Vec<u8> = vec![116, 101, 120, 116, 47, 99, 115, 115];
    assert(r@ =~= lit_text_css());
    r
}

/// `application/javascript`
pub open spec fn lit_app_js() -> Seq<u8> {
    seq![97u8, 112, 112, 108, 105, 99, 97, 116, 105, 111, 110, 47, 106, 97, 118, 97, 115, 99, 114, 105, 112, 116]
}

pub(crate) fn lit_app_js_bytes() -> (r: Vec<u8>)
    ensures
        r@ == lit_app_js(),
{
    let r: Vec<u8> = vec![97, 112, 112, 108, 105, 99, 97, 116, 105, 111, 110, 47, 106, 97, 118, 97, 115, 99, 114, 105, 112, 116];
    assert(r@ =~= lit_app_js());
    r
}

/// `image/svg+xml`
pub open spec fn lit_image_svg() -> Seq<u8> {
    seq![105u8, 109, 97, 103, 101, 47, 115, 118, 103, 43, 120, 109, 108]
}

pub(crate) fn lit_image_svg_bytes() -> (r: Vec<u8>)
    ensures
        r@ == lit_image_svg(),
{
    let r: Vec<u8> = vec![105, 109, 97, 103, 101, 47, 115, 118, 103, 43, 120, 109, 108];
    assert(r@ =~= lit_image_svg());
    r
}

/// `image/png`
pub open spec fn lit_image_png() -> Seq<u8> {
    seq![105u8, 109, 97, 103, 101, 47, 112, 110, 103]
}

pub(crate) fn lit_image_png_bytes() -> (r: Vec<u8>)
    ensures
        r@ == lit_image_png(),
{
    let r: Vec<u8> = vec![105, 109, 97, 103, 101, 47, 112, 110, 103];
    assert(r@ =~= lit_image_png());
    r
}

/// `image/jpeg`
pub open spec fn lit_image_jpeg() -> Seq<u8> {
    seq![105u8, 109, 97, 103, 101, 47, 106, 112, 101, 103]
}

pub(crate) fn lit_image_jpeg_bytes() -> (r: Vec<u8>)
    ensures
        r@ == lit_image_jpeg(),
{
    let r: Vec<u8> = vec![105, 109, 97, 103, 101, 47, 106, 112, 101, 103];
    assert(r@ =~= lit_image_jpeg());
    r
}

/// `font/woff2`
pub open spec fn lit_font_woff2() -> Seq<u8> {
    seq![102u8, 111, 110, 116, 47, 119, 111, 102, 102, 50]
}

pub(crate) fn lit_font_woff2_bytes() -> (r: Vec<u8>)
    ensures
        r@ == lit_font_woff2(),
{
    let r: Vec<u8> = vec![102, 111, 110, 116, 47, 119, 111, 102, 102, 50];
    assert(r@ =~= lit_font_woff2());
    r
}

/// `font/ttf`
pub open spec fn lit_font_ttf() -> Seq<u8> {
    seq![102u8, 111, 110, 116, 47, 116, 116, 102]
}

pub(crate) fn lit_font_ttf_bytes() -> (r: Vec<u8>)
    ensures
        r@ == lit_font_ttf(),
{
    let r: Vec<u8> = vec![102, 111, 110, 116, 47, 116, 116, 102];
    assert(r@ =~= lit_font_ttf());
    r
}

/// `application/vnd.ms-fontobject`
pub open spec fn lit_app_eot() -> Seq<u8> {
    seq![97u8, 112, 112, 108, 105, 99, 97, 116, 105, 111, 110, 47, 118, 110, 100, 46, 109, 115, 45, 102, 111, 110, 116, 111, 98, 106, 101, 99, 116]
}

pub(crate) fn lit_app_eot_bytes() -> (r: Vec<u8>)
    ensures
        r@ == lit_app_eot(),
{
    let r: Vec<u8> = vec![97, 112, 112, 108, 105, 99, 97, 116, 105, 111, 110, 47, 118, 110, 100, 46, 109, 115, 45, 102, 111, 110, 116, 111, 98, 106, 101, 99, 116];
    assert(r@ =~= lit_app_eot());
    r
}

/// `application/json`
pub open spec fn lit_app_json() -> Seq<u8> {
    seq![97u8, 112, 112, 108, 105, 99, 97, 116, 105, 111, 110, 47, 106, 115, 111, 110]
}

pub(crate) fn lit_app_json_bytes() -> (r: Vec<u8>)
    ensures
        r@ == lit_app_json(),
{
    let r: Vec<u8> = vec![97, 112, 112, 108, 105, 99, 97, 116, 105, 111, 110, 47, 106, 115, 111, 110];
    assert(r@ =~= lit_app_json());
    r
}

/// `application/octet-stream`
pub open spec fn lit_octet() -> Seq<u8> {
    seq![97u8, 112, 112, 108, 105, 99, 97, 116, 105, 111, 110, 47, 111, 99, 116, 101, 116, 45, 115, 116, 114, 101, 97, 109]
}

pub(crate) fn lit_octet_bytes() -> (r: Vec<u8>)
    ensures
        r@ == lit_octet(),
{
    let r: Vec<u8> = vec![97, 112, 112, 108, 105, 99, 97, 116, 105, 111, 110, 47, 111, 99, 116, 101, 116, 45, 115, 116, 114, 101, 97, 109];
    assert(r@ =~= lit_octet());
    r
}

/// `html`
pub open spec fn ext_html() -> Seq<u8> {
    seq![104u8, 116, 109, 108]
}

pub(crate) fn ext_html_bytes() -> (r: Vec<u8>)
    ensures
        r@ == ext_html(),
{
    let r: Vec<u8> = vec![104, 116, 109, 108];
    assert(r@ =~= ext_html());
    r
}

/// `css`
pub open spec fn ext_css() -> Seq<u8> {
    seq![99u8, 115, 115]
}

pub(crate) fn ext_css_bytes() -> (r: Vec<u8>)
    ensures
        r@ == ext_css(),
{
    let r: Vec<u8> = vec![99, 115, 115];
    assert(r@ =~= ext_css());
    r
}

/// `js`
pub open spec fn ext_js() -> Seq<u8> {
    seq![106u8, 115]
}

pub(crate) fn ext_js_bytes() -> (r: Vec<u8>)
    ensures
        r@ == ext_js(),
{
    let r: Vec<u8> = vec![106, 115];
    assert(r@ =~= ext_js());
    r
}

/// `svg`
pub open spec fn ext_svg() -> Seq<u8> {
    seq![115u8, 118, 103]
}

pub(crate) fn ext_svg_bytes() -> (r: Vec<u8>)
    ensures
        r@ == ext_svg(),
{
    let r: Vec<u8> = vec![115, 118, 103];
    assert(r@ =~= ext_svg());
    r
}

/// `png`
pub open spec fn ext_png() -> Seq<u8> {
    seq![112u8, 110, 103]
}

pub(crate) fn ext_png_bytes() -> (r: Vec<u8>)
    ensures
        r@ == ext_png(),
{
    let r: Vec<u8> = vec![112, 110, 103];
    assert(r@ =~= ext_png());
    r
}

/// `jpg`
pub open spec fn ext_jpg() -> Seq<u8> {
    seq![106u8, 112, 103]
}

pub(crate) fn ext_jpg_bytes() -> (r: Vec<u8>)
    ensures
        r@ == ext_jpg(),
{
    let r: Vec<u8> = vec![106, 112, 103];
    assert(r@ =~= ext_jpg());
    r
}

/// `jpeg`
pub open spec fn ext_jpeg() -> Seq<u8> {
    seq![106u8, 112, 101, 103]
}

pub(crate) fn ext_jpeg_bytes() -> (r: Vec<u8>)
    ensures
        r@ == ext_jpeg(),
{
    let r: Vec<u8> = vec![106, 112, 101, 103];
    assert(r@ =~= ext_jpeg());
    r
}

/// `woff`
pub open spec fn ext_woff() -> Seq<u8> {
    seq![119u8, 111, 102, 102]
}

pub(crate) fn ext_woff_bytes() -> (r: Vec<u8>)
    ensures
        r@ == ext_woff(),
{
    let r: Vec<u8> = vec![119, 111, 102, 102];
    assert(r@ =~= ext_woff());
    r
}

/// `woff2`
pub open spec fn ext_woff2() -> Seq<u8> {
    seq![119u8, 111, 102, 102, 50]
}

pub(crate) fn ext_woff2_bytes() -> (r: Vec<u8>)
    ensures
        r@ == ext_woff2(),
{
    let r: Vec<u8> = vec![119, 111, 102, 102, 50];
    assert(r@ =~= ext_woff2());
    r
}

/// `ttf`
pub open spec fn ext_ttf() -> Seq<u8> {
    seq![116u8, 116, 102]
}

pub(crate) fn ext_ttf_bytes() -> (r: Vec<u8>)
    ensures
        r@ == ext_ttf(),
{
    let r: Vec<u8> = vec![116, 116, 102];
    assert(r@ =~= ext_ttf());
    r
}

/// `eot`
pub open spec fn ext_eot() -> Seq<u8> {
    seq![101u8, 111, 116]
}

pub(crate) fn ext_eot_bytes() -> (r: Vec<u8>)
    ensures
        r@ == ext_eot(),
{
    let r: Vec<u8> = vec![101, 111, 116];
    assert(r@ =~= ext_eot());
    r
}

/// `json`
pub open spec fn ext_json() -> Seq<u8> {
    seq![106u8, 115, 111, 110]
}

pub(crate) fn ext_json_bytes() -> (r: Vec<u8>)
    ensures
        r@ == ext_json(),
{
    let r: Vec<u8> = vec![106, 115, 111, 110];
    assert(r@ =~= ext_json());
    r
}

/// `/`
pub open spec fn path_root() -> Seq<u8> {
    seq![47u8]
}

pub(crate) fn path_root_bytes() -> (r: Vec<u8>)
    ensures
        r@ == path_root(),
{
    let r: Vec<u8> = vec![47];
    assert(r@ =~= path_root());
    r
}

/// `/index.html`
pub open spec fn path_index() -> Seq<u8> {
    seq![47u8, 105, 110, 100, 101, 120, 46, 104, 116, 109, 108]
}

pub(crate) fn path_index_bytes() -> (r: Vec<u8>)
    ensures
        r@ == path_index(),
{
    let r: Vec<u8> = vec![47, 105, 110, 100, 101, 120, 46, 104, 116, 109, 108];
    assert(r@ =~= path_index());
    r
}

/// `/assets/`
pub open spec fn path_assets() -> Seq<u8> {
    seq![47u8, 97, 115, 115, 101, 116, 115, 47]
}

pub(crate) fn path_assets_bytes() -> (r: Vec<u8>)
    ensures
        r@ == path_assets(),
{
    let r: Vec<u8> = vec![47, 97, 115, 115, 101, 116, 115, 47];
    assert(r@ =~= path_assets());
    r
}

/// `/vite.svg`
pub open spec fn path_vite() -> Seq<u8> {
    seq![47u8, 118, 105, 116, 101, 46, 115, 118, 103]
}

pub(crate) fn path_vite_bytes() -> (r: Vec<u8>)
    ensures
        r@ == path_vite(),
{
    let r: Vec<u8> = vec![47, 118, 105, 116, 101, 46, 115, 118, 103];
    assert(r@ =~= path_vite());
    r
}

/// `/api/stats`
pub open spec fn path_stats() -> Seq<u8> {
    seq![47u8, 97, 112, 105, 47, 115, 116, 97, 116, 115]
}

pub(crate) fn path_stats_bytes() -> (r: Vec<u8>)
    ensures
        r@ == path_stats(),
{
    let r: Vec<u8> = vec![47, 97, 112, 105, 47, 115, 116, 97, 116, 115];
    assert(r@ =~= path_stats());
    r
}

/// `/api/speed-history`
pub open spec fn path_speed() -> Seq<u8> {
    seq![47u8, 97, 112, 105, 47, 115, 112, 101, 101, 100, 45, 104, 105, 115, 116, 111, 114, 121]
}

pub(crate) fn path_speed_bytes() -> (r: Vec<u8>)
    ensures
        r@ == path_speed(),
{
    let r: Vec<u8> = vec![47, 97, 112, 105, 47, 115, 112, 101, 101, 100, 45, 104, 105, 115, 116, 111, 114, 121];
    assert(r@ =~= path_speed());
    r
}

/// `/api/config`
pub open spec fn path_config() -> Seq<u8> {
    seq![47u8, 97, 112, 105, 47, 99, 111, 110, 102, 105, 103]
}

pub(crate) fn path_config_bytes() -> (r: Vec<u8>)
    ensures
        r@ == path_config(),
{
    let r: Vec<u8> = vec![47, 97, 112, 105, 47, 99, 111, 110, 102, 105, 103];
    assert(r@ =~= path_config());
    r
}

/// `index.html`
pub open spec fn file_index() -> Seq<u8> {
    seq![105u8, 110, 100, 101, 120, 46, 104, 116, 109, 108]
}

pub(crate) fn file_index_bytes() -> (r: Vec<u8>)
    ensures
        r@ == file_index(),
{
    let r: Vec<u8> = vec![105, 110, 100, 101, 120, 46, 104, 116, 109, 108];
    assert(r@ =~= file_index());
    r
}

/// `vite.svg`
pub open spec fn file_vite() -> Seq<u8> {
    seq![118u8, 105, 116, 101, 46, 115, 118, 103]
}

pub(crate) fn file_vite_bytes() -> (r: Vec<u8>)
    ensures
        r@ == file_vite(),
{
    let r: Vec<u8> = vec![118, 105, 116, 101, 46, 115, 118, 103];
    assert(r@ =~= file_vite());
    r
}

} // verus!
