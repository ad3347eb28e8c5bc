use jrok::error::Error;
use jrok::stun::{binding_request, DiscoveryStep, StunClient, StunServer};

fn internal_text(e: Error) -> String {
    match e {
        Error::Internal(m) => m,
        other => panic!("unexpected error {:?}", other),
    }
}

#[test]
fn test_stun_server_parsing() {
    let server = StunServer::from_str("stun.example.com:3478").unwrap();
    assert_eq!(server.addr, "stun.example.com");
    assert_eq!(server.port, 3478);
}

#[test]
fn test_stun_request_creation() {
    let client = StunClient::new();
    let request = client.create_stun_binding_request();

    assert_eq!(request.len(), 20);
    assert_eq!(request[0], 0x00);
    assert_eq!(request[1], 0x01);
}

#[test]
fn stun_server_without_colon_is_rejected() {
    let e = StunServer::from_str("stun.example.com").unwrap_err();
    assert_eq!(internal_text(e), "Invalid STUN server address: stun.example.com");
}

#[test]
fn stun_server_with_two_colons_is_rejected() {
    let e = StunServer::from_str("a:1:2").unwrap_err();
    assert_eq!(internal_text(e), "Invalid STUN server address: a:1:2");
}

#[test]
fn stun_server_with_bad_port_is_rejected() {
    let e = StunServer::from_str("host:70000").unwrap_err();
    assert_eq!(internal_text(e), "Invalid STUN server port: 70000");
    let e = StunServer::from_str("host:").unwrap_err();
    assert_eq!(internal_text(e), "Invalid STUN server port: ");
    let e = StunServer::from_str("host:-1").unwrap_err();
    assert_eq!(internal_text(e), "Invalid STUN server port: -1");
}

#[test]
fn stun_server_port_takes_plus_sign_and_zeros() {
    let s = StunServer::from_str("h:+0080").unwrap();
    assert_eq!(s.addr, "h");
    assert_eq!(s.port, 80);
    let s = StunServer::from_str(":65535").unwrap();
    assert_eq!(s.addr, "");
    assert_eq!(s.port, 65535);
    assert!(StunServer::from_str("h:+").is_err());
}

#[test]
fn stun_server_label_reads_back() {
    let s = StunServer::new("10.0.0.1".to_string(), 19302);
    let label = s.label();
    assert_eq!(label, "10.0.0.1:19302");
    let back = StunServer::from_str(&label).unwrap();
    assert_eq!(back.addr, s.addr);
    assert_eq!(back.port, s.port);
}

#[test]
fn binding_request_layout() {
    let id = [1u8, 2, 3, 4, 5, 6, 7, 8, 9, 10, 11, 12];
    let r = binding_request(&id);
    assert_eq!(r, vec![0, 1, 0, 0, 0x21, 0x12, 0xA4, 0x42, 1, 2, 3, 4, 5, 6, 7, 8, 9, 10, 11, 12]);
}

#[test]
fn two_binding_requests_differ_in_transaction_id() {
    let client = StunClient::new();
    let a = client.create_stun_binding_request();
    let b = client.create_stun_binding_request();
    assert_eq!(a[..8], b[..8]);
    assert_ne!(a[8..], b[8..]);
}

fn response_with(attrs: &[u8]) -> Vec<u8> {
    let mut r = vec![0x01, 0x01, 0x00, attrs.len() as u8, 0x21, 0x12, 0xA4, 0x42];
    r.extend_from_slice(&[7u8; 12]);
    r.extend_from_slice(attrs);
    r
}

#[test]
fn parses_xor_mapped_address() {
    let client = StunClient::new();
    let server = StunServer::new("stun.example.com".to_string(), 3478);
    // 203.0.113.10:8080, port and address XORed with the magic cookie.
    let attrs = [0x00, 0x20, 0x00, 0x08, 0x00, 0x01, 0x1F ^ 0x21, 0x90 ^ 0x12, 203 ^ 0x21, 0 ^ 0x12, 113 ^ 0xA4, 10 ^ 0x42];
    let e = client.parse_stun_response(&response_with(&attrs), &server, "0.0.0.0:5000").unwrap();
    assert_eq!(e.public_ip, "203.0.113.10");
    assert_eq!(e.public_port, 8080);
    assert_eq!(e.local_addr, "0.0.0.0:5000");
    assert_eq!(e.stun_server, "stun.example.com:3478");
}

#[test]
fn parses_plain_mapped_address_and_keeps_the_last() {
    let client = StunClient::new();
    let server = StunServer::new("s".to_string(), 1);
    let attrs = [
        0x00, 0x01, 0x00, 0x08, 0x00, 0x01, 0x00, 0x50, 1, 2, 3, 4, //
        0x80, 0x22, 0x00, 0x03, 9, 9, 9, 0, // unknown attribute, padded
        0x00, 0x01, 0x00, 0x08, 0x00, 0x01, 0x00, 0x51, 5, 6, 7, 8,
    ];
    let e = client.parse_stun_response(&response_with(&attrs), &server, "l").unwrap();
    assert_eq!(e.public_ip, "5.6.7.8");
    assert_eq!(e.public_port, 81);
}

#[test]
fn stun_response_errors() {
    let client = StunClient::new();
    let server = StunServer::new("s".to_string(), 1);
    let e = client.parse_stun_response(&[0u8; 19], &server, "l").unwrap_err();
    assert_eq!(internal_text(e), "STUN response too short");

    let mut bad_cookie = response_with(&[]);
    bad_cookie[4] = 0;
    let e = client.parse_stun_response(&bad_cookie, &server, "l").unwrap_err();
    assert_eq!(internal_text(e), "Invalid STUN magic cookie");

    let mut wrong_type = response_with(&[]);
    wrong_type[0] = 0x01;
    wrong_type[1] = 0x11;
    let e = client.parse_stun_response(&wrong_type, &server, "l").unwrap_err();
    assert_eq!(internal_text(e), "Unexpected STUN message type: 0x0111");

    let err_attr = [0x00, 0x09, 0x00, 0x04, 0, 0, 4, 1];
    let e = client.parse_stun_response(&response_with(&err_attr), &server, "l").unwrap_err();
    assert_eq!(internal_text(e), "STUN error code attribute present");

    let e = client.parse_stun_response(&response_with(&[]), &server, "l").unwrap_err();
    assert_eq!(internal_text(e), "No mapped address in STUN response");

    // An IPv6 mapped address does not count.
    let v6 = [0x00, 0x01, 0x00, 0x08, 0x00, 0x02, 0x00, 0x50, 1, 2, 3, 4];
    let e = client.parse_stun_response(&response_with(&v6), &server, "l").unwrap_err();
    assert_eq!(internal_text(e), "No mapped address in STUN response");
}

#[test]
fn mapped_address_errors() {
    let client = StunClient::new();
    let e = client.parse_mapped_address(&[0, 1, 0, 80, 1, 2, 3], 0x0001).unwrap_err();
    assert_eq!(internal_text(e), "Mapped address too short");
    let e = client.parse_mapped_address(&[0, 2, 0, 80, 1, 2, 3, 4], 0x0001).unwrap_err();
    assert_eq!(internal_text(e), "Only IPv4 addresses supported");
    let (ip, port) = client.parse_mapped_address(&[0, 1, 0, 80, 10, 0, 0, 255], 0x0001).unwrap();
    assert_eq!(ip, "10.0.0.255");
    assert_eq!(port, 80);
}

#[test]
fn default_client_servers() {
    let c = StunClient::new();
    let names: Vec<String> = c.servers().iter().map(|s| s.label()).collect();
    assert_eq!(
        names,
        vec!["stun.l.google.com:19302", "stun1.l.google.com:19302", "stun2.l.google.com:19302", "stun.cloudflare.com:3478"]
    );
    assert_eq!(c.timeout_ms(), 3000);
}

#[test]
fn discovery_asks_servers_in_turn_then_gives_up() {
    let c = StunClient::with_servers(vec![StunServer::new("a".to_string(), 1), StunServer::new("b".to_string(), 2)]);
    match c.discover_public_endpoint("0.0.0.0:9", &vec![]) {
        DiscoveryStep::Query(i) => assert_eq!(i, 0),
        other => panic!("{:?}", other),
    }
    match c.discover_public_endpoint("0.0.0.0:9", &vec![None]) {
        DiscoveryStep::Query(i) => assert_eq!(i, 1),
        other => panic!("{:?}", other),
    }
    match c.discover_public_endpoint("0.0.0.0:9", &vec![None, Some(vec![1, 2, 3])]) {
        DiscoveryStep::Found(e) => {
            assert_eq!(e.public_ip, "0.0.0.0");
            assert_eq!(e.public_port, 0);
            assert_eq!(e.local_addr, "0.0.0.0:9");
            assert_eq!(e.stun_server, "none");
        }
        other => panic!("{:?}", other),
    }
}

#[test]
fn discovery_stops_at_first_useful_reply() {
    let c = StunClient::with_servers(vec![StunServer::new("a".to_string(), 1), StunServer::new("b".to_string(), 2)]);
    let attrs = [0x00, 0x01, 0x00, 0x08, 0x00, 0x01, 0x00, 0x50, 1, 2, 3, 4];
    match c.discover_public_endpoint("l", &vec![Some(response_with(&attrs))]) {
        DiscoveryStep::Found(e) => {
            assert_eq!(e.public_ip, "1.2.3.4");
            assert_eq!(e.stun_server, "a:1");
        }
        other => panic!("{:?}", other),
    }
}

#[test]
fn rfc_xor_mapped_address_example() {
    let client = StunClient::new();
    let (ip, port) = client.parse_mapped_address(&[0x00, 0x01, 0x3E, 0x82, 0xE1, 0x12, 0xA6, 0x43], 0x0020).unwrap();
    assert_eq!(ip, "192.0.2.1");
    assert_eq!(port, 8080);
}
