use vless_core::protocol::{Command, ProtocolError};
use vless_core::server::{
    classify_connection, udp_accept_source, udp_datagram_for_read, udp_download_block, ByteCounter,
    ConnectionGovernor, ConnectionKind, Endpoint, RelayMode, ServerConfig, Session, SessionError,
    SessionPhase, UploadRelay,
};
use vless_core::xtls::{VisionProcessor, VisionState};

const UUID: u128 = 0x00112233445566778899AABBCCDDEEFF;

fn header(version: u8, addons: &[u8], command: u8, port: u16, address: &[u8]) -> Vec<u8> {
    let mut b = vec![version];
    b.extend_from_slice(&UUID.to_be_bytes());
    b.push(addons.len() as u8);
    b.extend_from_slice(addons);
    b.push(command);
    b.extend_from_slice(&port.to_be_bytes());
    b.extend_from_slice(address);
    b
}

fn users() -> ServerConfig {
    let mut c = ServerConfig::new("0.0.0.0".to_string(), 443);
    c.add_user_with_email(UUID, Some("user@example.com".to_string()));
    c
}

#[test]
fn demux_by_first_bytes() {
    assert_eq!(classify_connection(&[]), ConnectionKind::Closed);
    assert_eq!(classify_connection(&[0x16, 0x03, 0x01]), ConnectionKind::Tls);
    assert_eq!(classify_connection(b"GET / HTTP/1.1"), ConnectionKind::Http);
    assert_eq!(classify_connection(b"PRI * HTTP/2.0"), ConnectionKind::Http);
    assert_eq!(classify_connection(b"OPTIONS *"), ConnectionKind::Http);
    assert_eq!(classify_connection(b"GETX"), ConnectionKind::Vless);
    assert_eq!(classify_connection(&[0x01, 0x00, 0x11]), ConnectionKind::Vless);
}

#[test]
fn accepted_session_answers_once_before_relaying() {
    let mut buf = header(1, &[], 1, 443, &[1, 127, 0, 0, 1]);
    buf.extend_from_slice(b"Hello");
    let mut s = Session::new();
    let acc = s.accept_header(&buf, &users(), false).unwrap();
    assert_eq!(acc.response, vec![0x01, 0x00]);
    assert_eq!(acc.remaining, b"Hello".to_vec());
    assert_eq!(acc.mode, RelayMode::Tcp);
    assert_eq!(s.phase, SessionPhase::Relaying);
    s.record_upload(b"Hello");
    s.record_download(b"World");
    s.close();
    assert_eq!(s.phase, SessionPhase::Closed);
}

#[test]
fn unknown_uuid_gets_no_response() {
    let mut buf = header(1, &[], 1, 443, &[1, 127, 0, 0, 1]);
    buf[1] ^= 0xFF;
    let mut s = Session::new();
    let r = s.accept_header(&buf, &users(), false);
    assert!(matches!(r, Err(SessionError::Unauthenticated)));
    assert_eq!(s.phase, SessionPhase::Closed);
}

#[test]
fn malformed_and_mux_are_refused() {
    let mut s = Session::new();
    let r = s.accept_header(&[1, 2, 3], &users(), false);
    assert!(matches!(r, Err(SessionError::Malformed(ProtocolError::TooShort))));
    let mut s = Session::new();
    let buf = header(1, &[], 3, 443, &[1, 127, 0, 0, 1]);
    let r = s.accept_header(&buf, &users(), false);
    assert!(matches!(r, Err(SessionError::UnsupportedCommand)));
}

#[test]
fn udp_request_pins_one_datagram_per_read() {
    let mut buf = header(1, &[], 2, 53, &[1, 8, 8, 8, 8]);
    let query = [0x12u8, 0x34, 0x01, 0x00, 0x00, 0x01, 0x00, 0x00, 0x00, 0x00, 0x00, 0x00];
    buf.extend_from_slice(&query);
    let mut s = Session::new();
    let acc = s.accept_header(&buf, &users(), false).unwrap();
    assert_eq!(acc.mode, RelayMode::Udp);
    assert_eq!(acc.request.command, Command::Udp);
    assert_eq!(acc.request.port, 53);
    let d = udp_datagram_for_read(&acc.remaining).unwrap();
    assert_eq!(d.len(), 12);
    assert_eq!(d, query.to_vec());
    assert!(udp_datagram_for_read(&[]).is_none());
}

#[test]
fn udp_replies_only_from_pinned_destination() {
    let pinned = Endpoint { is_ipv6: false, ip: 0x08080808, port: 53 };
    let other_port = Endpoint { is_ipv6: false, ip: 0x08080808, port: 54 };
    let other_host = Endpoint { is_ipv6: false, ip: 0x08080404, port: 53 };
    assert!(udp_accept_source(pinned, pinned));
    assert!(!udp_accept_source(other_port, pinned));
    assert!(!udp_accept_source(other_host, pinned));
    assert_eq!(udp_download_block(pinned, pinned, b"answer"), Some(b"answer".to_vec()));
    assert_eq!(udp_download_block(other_host, pinned, b"spoof"), None);
}

#[test]
fn vision_on_tls_splices_after_inner_tls() {
    let mut addons = vec![0x0A, 16];
    addons.extend_from_slice(b"xtls-rprx-vision");
    let mut addr = vec![2, 11];
    addr.extend_from_slice(b"example.com");
    let buf = header(0, &addons, 1, 443, &addr);
    let mut s = Session::new();
    let acc = s.accept_header(&buf, &users(), true).unwrap();
    assert_eq!(acc.mode, RelayMode::Vision);
    assert_eq!(acc.response, vec![0x00, 0x00]);

    let mut v = VisionProcessor::new();
    assert!(v.forward_initial(&acc.remaining).is_empty());
    assert_eq!(v.state, VisionState::Detecting);
    let chunk = [0x16, 0x03, 0x01, 0x00, 0x05, 0x01, 0x02, 0x03, 0x04, 0x05];
    assert_eq!(v.forward_client_chunk(&chunk), chunk.to_vec());
    assert_eq!(v.state, VisionState::Spliced);
    assert_eq!(v.forward_client_chunk(b"plain"), b"plain".to_vec());
    assert_eq!(v.state, VisionState::Spliced);
}

#[test]
fn vision_without_inner_tls_stays_on_plain_path() {
    let mut v = VisionProcessor::new();
    v.forward_initial(b"x");
    assert_eq!(v.forward_client_chunk(b"GET / HTTP/1.1"), b"GET / HTTP/1.1".to_vec());
    assert_eq!(v.state, VisionState::Normal);
    let tls = [0x17, 0x03, 0x03, 0x00, 0x00];
    v.forward_client_chunk(&tls);
    assert_eq!(v.state, VisionState::Normal);
}

#[test]
fn vision_needs_outer_tls() {
    let mut addons = vec![0x0A, 16];
    addons.extend_from_slice(b"xtls-rprx-vision");
    let buf = header(0, &addons, 1, 443, &[1, 1, 1, 1, 1]);
    let mut s = Session::new();
    let acc = s.accept_header(&buf, &users(), false).unwrap();
    assert_eq!(acc.mode, RelayMode::Tcp);
}

#[test]
fn upload_relay_sends_remaining_then_reads() {
    let mut u = UploadRelay::new();
    let mut sent = u.start(b"Hello");
    sent.extend(u.on_client_read(b", "));
    sent.extend(u.on_client_read(b"world"));
    assert_eq!(sent, b"Hello, world".to_vec());
}

#[test]
fn byte_counter_flushes_in_batches() {
    let mut c = ByteCounter::new(100);
    assert_eq!(c.on_bytes(60), 0);
    assert_eq!(c.on_bytes(50), 110);
    assert_eq!(c.on_bytes(30), 0);
    assert_eq!(c.finish(), 30);
    assert_eq!(c.total, 140);
    assert_eq!(c.finish(), 0);
}

#[test]
fn governor_rejects_over_capacity() {
    let mut g = ConnectionGovernor::new(2);
    assert!(g.try_acquire());
    assert!(g.try_acquire());
    assert!(!g.try_acquire());
    assert_eq!(g.active, 2);
    assert_eq!(g.rejected, 1);
    g.release();
    assert!(g.try_acquire());
    assert_eq!(g.rejected, 1);
}

#[test]
fn governor_zero_is_unlimited() {
    let mut g = ConnectionGovernor::new(0);
    for _ in 0..1000 {
        assert!(g.try_acquire());
    }
    assert_eq!(g.rejected, 0);
}

#[test]
fn user_labels() {
    let c = users();
    assert!(c.contains_user(UUID));
    assert_eq!(c.get_user_email(UUID), Some("user@example.com".to_string()));
    assert_eq!(c.get_user_email(7), None);
    assert!(!c.contains_user(7));
}
