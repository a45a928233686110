use vless_core::server::Endpoint;
use vless_core::protocol::{
    encode_response, Address, Command, ProtocolError, VlessRequest, VlessResponse, XtlsFlow,
};

fn header(version: u8, addons: &[u8], command: u8, port: u16, address: &[u8]) -> Vec<u8> {
    let mut b = vec![version];
    b.extend_from_slice(&[
        0x00, 0x11, 0x22, 0x33, 0x44, 0x55, 0x66, 0x77, 0x88, 0x99, 0xAA, 0xBB, 0xCC, 0xDD, 0xEE, 0xFF,
    ]);
    b.push(addons.len() as u8);
    b.extend_from_slice(addons);
    b.push(command);
    b.push((port >> 8) as u8);
    b.push((port & 0xff) as u8);
    b.extend_from_slice(address);
    b
}

#[test]
fn minimal_tcp_request_ipv4() {
    let mut buf = header(1, &[], 1, 443, &[1, 127, 0, 0, 1]);
    buf.extend_from_slice(b"Hello");
    let (req, rest) = VlessRequest::decode(&buf).unwrap();
    assert_eq!(req.version, 1);
    assert_eq!(req.uuid, 0x00112233445566778899AABBCCDDEEFF);
    assert_eq!(req.command, Command::Tcp);
    assert_eq!(req.port, 443);
    assert_eq!(req.address, Address::Ipv4([127, 0, 0, 1]));
    assert_eq!(req.xtls_flow, XtlsFlow::Plain);
    assert_eq!(rest, b"Hello".to_vec());
    assert_eq!(encode_response(req.version), vec![0x01, 0x00]);
}

#[test]
fn header_without_payload_is_accepted() {
    let buf = header(1, &[], 1, 80, &[1, 10, 0, 0, 1]);
    assert_eq!(buf.len(), 26);
    let (req, rest) = VlessRequest::decode(&buf).unwrap();
    assert_eq!(req.addons_length, 0);
    assert!(rest.is_empty());
}

#[test]
fn eighteen_bytes_is_too_short() {
    let buf = header(1, &[], 1, 80, &[1, 10, 0, 0, 1]);
    assert_eq!(VlessRequest::decode(&buf[..18]).unwrap_err(), ProtocolError::TooShort);
    assert_eq!(VlessRequest::decode(&buf[..17]).unwrap_err(), ProtocolError::TooShort);
    assert_eq!(VlessRequest::decode(&buf[..25]).unwrap_err(), ProtocolError::TooShort);
}

#[test]
fn full_addons_are_searched_for_the_flow() {
    let mut addons = vec![0u8; 255 - 16];
    addons.extend_from_slice(b"xtls-rprx-vision");
    assert_eq!(addons.len(), 255);
    let buf = header(0, &addons, 1, 443, &[1, 1, 2, 3, 4]);
    let (req, rest) = VlessRequest::decode(&buf).unwrap();
    assert_eq!(req.addons_length, 255);
    assert_eq!(req.addons, addons);
    assert_eq!(req.xtls_flow, XtlsFlow::XtlsRprxVision);
    assert!(rest.is_empty());
}

#[test]
fn udp443_tag_wins_over_vision_tag() {
    let mut addons = vec![0x0A, 23];
    addons.extend_from_slice(b"xtls-rprx-vision-udp443");
    let buf = header(0, &addons, 1, 443, &[1, 1, 2, 3, 4]);
    let (req, _) = VlessRequest::decode(&buf).unwrap();
    assert_eq!(req.xtls_flow, XtlsFlow::XtlsRprxVisionUdp443);
}

#[test]
fn empty_domain_is_rejected() {
    let buf = header(1, &[], 1, 443, &[2, 0]);
    assert_eq!(VlessRequest::decode(&buf).unwrap_err(), ProtocolError::EmptyDomain);
}

#[test]
fn longest_domain_is_accepted() {
    let mut addr = vec![2, 255];
    addr.extend(std::iter::repeat(b'a').take(255));
    let mut buf = header(1, &[], 1, 443, &addr);
    buf.extend_from_slice(&[9, 9]);
    let (req, rest) = VlessRequest::decode(&buf).unwrap();
    assert_eq!(req.address, Address::Domain("a".repeat(255)));
    assert_eq!(rest, vec![9, 9]);
}

#[test]
fn invalid_domain_bytes_are_rejected() {
    let buf = header(1, &[], 1, 443, &[2, 2, 0xC3, 0x28]);
    assert_eq!(VlessRequest::decode(&buf).unwrap_err(), ProtocolError::InvalidDomain);
}

#[test]
fn ipv6_target() {
    let mut addr = vec![3];
    addr.extend(1u8..=16);
    let buf = header(1, &[], 2, 53, &addr);
    let (req, _) = VlessRequest::decode(&buf).unwrap();
    assert_eq!(req.command, Command::Udp);
    assert_eq!(req.address, Address::Ipv6([1, 2, 3, 4, 5, 6, 7, 8, 9, 10, 11, 12, 13, 14, 15, 16]));
}

#[test]
fn bad_version_command_and_address_type() {
    let buf = header(2, &[], 1, 443, &[1, 1, 2, 3, 4]);
    assert_eq!(VlessRequest::decode(&buf).unwrap_err(), ProtocolError::UnsupportedVersion(2));
    let buf = header(1, &[], 4, 443, &[1, 1, 2, 3, 4]);
    assert_eq!(VlessRequest::decode(&buf).unwrap_err(), ProtocolError::InvalidCommand(4));
    let buf = header(1, &[], 1, 443, &[4, 1, 2, 3, 4]);
    assert_eq!(VlessRequest::decode(&buf).unwrap_err(), ProtocolError::InvalidAddressType(4));
}

#[test]
fn decoding_is_deterministic() {
    let mut buf = header(0, b"abc", 3, 8080, &[2, 11]);
    buf.extend_from_slice(b"example.com");
    buf.extend_from_slice(b"tail");
    let (a, ra) = VlessRequest::decode(&buf).unwrap();
    let (b, rb) = VlessRequest::decode(&buf).unwrap();
    assert_eq!(a.uuid, b.uuid);
    assert_eq!(a.address, b.address);
    assert_eq!(a.address, Address::Domain("example.com".to_string()));
    assert_eq!(a.command, Command::Mux);
    assert_eq!(a.port, 8080);
    assert_eq!(ra, rb);
    assert_eq!(ra, b"tail".to_vec());
}

#[test]
fn response_frame() {
    assert_eq!(encode_response(0), vec![0, 0]);
    let r = VlessResponse::new_with_version(1);
    assert_eq!(r.encode(), vec![1, 0]);
}

#[test]
fn command_and_address_type_bytes() {
    assert_eq!(Command::try_from(2), Ok(Command::Udp));
    assert_eq!(Command::try_from(0), Err(ProtocolError::InvalidCommand(0)));
    assert_eq!(
        vless_core::protocol::AddressType::try_from(9),
        Err(ProtocolError::InvalidAddressType(9))
    );
}

#[test]
fn socket_endpoints_of_addresses() {
    assert_eq!(
        Address::Ipv4([127, 0, 0, 1]).to_socket_addr(443),
        Ok(Endpoint { is_ipv6: false, ip: 0x7F000001, port: 443 })
    );
    let mut v6 = [0u8; 16];
    v6[15] = 1;
    assert_eq!(Address::Ipv6(v6).to_socket_addr(53), Ok(Endpoint { is_ipv6: true, ip: 1, port: 53 }));
    assert_eq!(
        Address::Domain("example.com".to_string()).to_socket_addr(80),
        Err(ProtocolError::DomainNeedsResolution)
    );
}
