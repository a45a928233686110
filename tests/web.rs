use vless_core::base64::encode;
use vless_core::frame::{decode_frame, encode_frame, frame_action, FrameAction};
use vless_core::http::{
    create_http_response, guess_content_type, is_http_request, parse_http_request, route_http,
    HttpParseError, HttpResponseBuilder, HttpRoute,
};
use vless_core::ws::{
    compute_accept_key, extract_websocket_key, is_allowed_origin, is_websocket_upgrade, normalize_path,
    upgrade_response,
};

const UPGRADE: &[u8] = b"GET /vless HTTP/1.1\r\nHost: h\r\nUpgrade: websocket\r\nConnection: Upgrade\r\nSec-WebSocket-Key: dGhlIHNhbXBsZSBub25jZQ==\r\n\r\n";

#[test]
fn http_prefixes() {
    assert!(is_http_request(b"GET / HTTP/1.1"));
    assert!(is_http_request(b"POST /x"));
    assert!(is_http_request(b"DELETE /x"));
    assert!(is_http_request(b"PRI"));
    assert!(!is_http_request(b"GE"));
    assert!(!is_http_request(b"get /"));
    assert!(!is_http_request(&[0x01, 0x00, 0x11, 0x22]));
}

#[test]
fn parses_request_line_and_headers() {
    let req = parse_http_request(UPGRADE).unwrap();
    assert_eq!(req.method, b"GET".to_vec());
    assert_eq!(req.path, b"/vless".to_vec());
    assert_eq!(req.headers.len(), 4);
    assert_eq!(req.headers[0], (b"Host".to_vec(), b"h".to_vec()));
    assert_eq!(req.headers[3], (b"Sec-WebSocket-Key".to_vec(), b"dGhlIHNhbXBsZSBub25jZQ==".to_vec()));
}

#[test]
fn parse_errors() {
    assert_eq!(parse_http_request(b"").unwrap_err(), HttpParseError::EmptyRequest);
    assert_eq!(parse_http_request(b"GET\r\n\r\n").unwrap_err(), HttpParseError::InvalidRequestLine);
    assert_eq!(parse_http_request(&[0x47, 0xFF, 0x20]).unwrap_err(), HttpParseError::InvalidUtf8);
}

#[test]
fn headers_stop_at_blank_line_and_skip_lines_without_colon() {
    let req = parse_http_request(b"GET /a HTTP/1.1\nX:  1 \nbogus\n\nY: 2\n").unwrap();
    assert_eq!(req.headers, vec![(b"X".to_vec(), b"1".to_vec())]);
}

#[test]
fn websocket_upgrade_handshake() {
    let req = parse_http_request(UPGRADE).unwrap();
    assert!(is_websocket_upgrade(&req, b"/vless"));
    assert!(!is_websocket_upgrade(&req, b"/other"));
    let key = extract_websocket_key(&req).unwrap();
    let accept = compute_accept_key(&key);
    assert_eq!(accept, b"s3pPLMBiTxaQ9kYGzzhZRbK+xOo=".to_vec());
    let resp = upgrade_response(&accept);
    assert_eq!(
        String::from_utf8(resp).unwrap(),
        "HTTP/1.1 101 Switching Protocols\r\nUpgrade: websocket\r\nConnection: Upgrade\r\nSec-WebSocket-Accept: s3pPLMBiTxaQ9kYGzzhZRbK+xOo=\r\n\r\n"
    );
}

#[test]
fn upgrade_needs_key_and_headers() {
    let req = parse_http_request(b"GET /vless HTTP/1.1\r\nUpgrade: WebSocket\r\nConnection: keep-alive, Upgrade\r\n\r\n").unwrap();
    assert!(!is_websocket_upgrade(&req, b"/vless"));
    assert!(extract_websocket_key(&req).is_none());
    let req = parse_http_request(b"get //vless HTTP/1.1\r\nupgrade: WebSocket\r\nconnection: keep-alive, Upgrade\r\nsec-websocket-key: k\r\n\r\n").unwrap();
    assert!(is_websocket_upgrade(&req, b"/vless"));
    let req = parse_http_request(b"POST /vless HTTP/1.1\r\nUpgrade: websocket\r\nConnection: Upgrade\r\nSec-WebSocket-Key: k\r\n\r\n").unwrap();
    assert!(!is_websocket_upgrade(&req, b"/vless"));
}

#[test]
fn path_normalisation() {
    assert_eq!(normalize_path(b"/vless"), Some(b"/vless".to_vec()));
    assert_eq!(normalize_path(b"vless"), Some(b"/vless".to_vec()));
    assert_eq!(normalize_path(b"//a///b"), Some(b"/a/b".to_vec()));
    assert_eq!(normalize_path(b"/%76less"), Some(b"/vless".to_vec()));
    assert_eq!(normalize_path(b"/100%"), Some(b"/100%".to_vec()));
    assert_eq!(normalize_path(b""), Some(b"/".to_vec()));
}

#[test]
fn path_traversal_is_rejected() {
    assert_eq!(normalize_path(b"/a/../b"), None);
    assert_eq!(normalize_path(b"/%2e%2e/etc"), None);
    assert_eq!(normalize_path(b"/%2E."), None);
    assert_eq!(normalize_path(b"/a\\b"), None);
    assert_eq!(normalize_path(b"/a%5cb"), None);
}

#[test]
fn base64_vectors() {
    assert_eq!(encode(b""), b"".to_vec());
    assert_eq!(encode(b"f"), b"Zg==".to_vec());
    assert_eq!(encode(b"fo"), b"Zm8=".to_vec());
    assert_eq!(encode(b"foo"), b"Zm9v".to_vec());
    assert_eq!(encode(b"foobar"), b"Zm9vYmFy".to_vec());
    assert_eq!(encode(&[0xFB, 0xFF]), b"+/8=".to_vec());
}

#[test]
fn not_found_response_bytes() {
    let r = create_http_response(404, "text/plain", "Not Found");
    let text = String::from_utf8(r).unwrap();
    assert!(text.starts_with("HTTP/1.1 404 Not Found\r\nContent-Type: text/plain\r\nContent-Length: 9\r\nConnection: close\r\nX-Content-Type-Options: nosniff\r\n"));
    assert!(text.ends_with("X-XSS-Protection: 1; mode=block\r\n\r\nNot Found"));
}

#[test]
fn builder_status_texts() {
    let r = HttpResponseBuilder::new(500, b"a/b").header(b"K", b"V").body(b"xy").build();
    assert_eq!(
        String::from_utf8(r).unwrap(),
        "HTTP/1.1 500 Unknown\r\nContent-Type: a/b\r\nContent-Length: 2\r\nConnection: close\r\nK: V\r\n\r\nxy"
    );
    let r = HttpResponseBuilder::new(200, b"t").build();
    assert!(String::from_utf8(r).unwrap().starts_with("HTTP/1.1 200 OK\r\n"));
}

#[test]
fn content_types() {
    assert_eq!(guess_content_type(b"assets/app.js"), b"application/javascript".to_vec());
    assert_eq!(guess_content_type(b"assets/font.woff2"), b"font/woff2".to_vec());
    assert_eq!(guess_content_type(b"a.b/c.JPEG"), b"application/octet-stream".to_vec());
    assert_eq!(guess_content_type(b"x/photo.jpeg"), b"image/jpeg".to_vec());
    assert_eq!(guess_content_type(b".hidden"), b"application/octet-stream".to_vec());
    assert_eq!(guess_content_type(b"noext"), b"application/octet-stream".to_vec());
}

#[test]
fn monitoring_routes() {
    assert!(matches!(route_http(b"/api/stats"), HttpRoute::Stats));
    assert!(matches!(route_http(b"/api/speed-history"), HttpRoute::SpeedHistory));
    assert!(matches!(route_http(b"/api/config"), HttpRoute::MonitoringSettings));
    assert!(matches!(route_http(b"/nope"), HttpRoute::NotFound));
    match route_http(b"/") {
        HttpRoute::StaticFile { name, content_type } => {
            assert_eq!(name, b"index.html".to_vec());
            assert_eq!(content_type, b"text/html".to_vec());
        }
        _ => panic!("expected a file"),
    }
    match route_http(b"/assets/main.css") {
        HttpRoute::StaticFile { name, content_type } => {
            assert_eq!(name, b"assets/main.css".to_vec());
            assert_eq!(content_type, b"text/css".to_vec());
        }
        _ => panic!("expected a file"),
    }
}

#[test]
fn frames_round_trip_and_unmask() {
    assert_eq!(decode_frame(&[0x82]), None);
    let masked = [0x82u8, 0x83, 1, 2, 3, 4, b'a' ^ 1, b'b' ^ 2, b'c' ^ 3, 0xEE];
    let (f, used) = decode_frame(&masked).unwrap();
    assert!(f.fin);
    assert_eq!(f.opcode, 2);
    assert_eq!(f.payload, b"abc".to_vec());
    assert_eq!(used, 9);
    let long = vec![7u8; 300];
    let enc = encode_frame(2, &long);
    assert_eq!(&enc[..4], &[0x82, 126, 1, 44]);
    let (g, used) = decode_frame(&enc).unwrap();
    assert_eq!(g.payload, long);
    assert_eq!(used, 304);
    let huge = vec![1u8; 70000];
    let enc = encode_frame(1, &huge);
    assert_eq!(&enc[..10], &[0x81, 127, 0, 0, 0, 0, 0, 1, 0x11, 0x70]);
    assert_eq!(decode_frame(&enc).unwrap().0.payload.len(), 70000);
    assert_eq!(frame_action(2), FrameAction::Data);
    assert_eq!(frame_action(1), FrameAction::Data);
    assert_eq!(frame_action(8), FrameAction::Close);
    assert_eq!(frame_action(9), FrameAction::Pong);
    assert_eq!(frame_action(10), FrameAction::Ignore);
}

#[test]
fn monitoring_origin_policy() {
    let with = parse_http_request(b"GET /api/ws HTTP/1.1\r\nORIGIN: https://a.example\r\nOrigin: https://b.example\r\n\r\n").unwrap();
    let without = parse_http_request(b"GET /api/ws HTTP/1.1\r\nHost: x\r\n\r\n").unwrap();
    assert!(is_allowed_origin(&with, None));
    assert!(is_allowed_origin(&with, Some(b"https://a.example")));
    assert!(!is_allowed_origin(&with, Some(b"https://b.example")));
    assert!(is_allowed_origin(&without, Some(b"https://a.example")));
}
