use jrok::client::{
    agent_protocol, agent_url, default_subdomain, on_server_reply, register_message, subdomain_or_default, ConnectOutcome,
    ServerReply,
};
use jrok::proto::Message;

fn reply(kind: Option<&str>) -> ServerReply {
    ServerReply { kind: kind.map(|s| s.to_string()), subdomain: None, protocol: None, tcp_port: None, server: None, message: None }
}

#[test]
fn agent_settings() {
    assert_eq!(agent_protocol(true), "tcp");
    assert_eq!(agent_protocol(false), "http");
    assert_eq!(default_subdomain("0123456789abcdef"), "jrok-01234567");
    assert_eq!(default_subdomain("abc"), "jrok-abc");
    assert_eq!(agent_url("wss://t.example.com", "jrok_k"), "wss://t.example.com/ws/agent?api_key=jrok_k");
    match register_message("myapp".to_string(), 3000, "localhost".to_string(), "http".to_string(), "k".to_string()) {
        Message::Register { subdomain, local_port, local_host, protocol, api_key } => {
            assert_eq!(subdomain, "myapp");
            assert_eq!(local_port, 3000);
            assert_eq!(local_host, "localhost");
            assert_eq!(protocol, "http");
            assert_eq!(api_key, "k");
        },
        other => panic!("unexpected {:?}", other),
    }
}

#[test]
fn welcome_gives_the_tunnel_url() {
    let mut r = reply(Some("welcome"));
    match on_server_reply(&r, "myapp") {
        ConnectOutcome::Active(u) => assert_eq!(u, "https://myapp.tunnel.example.com"),
        other => panic!("unexpected {:?}", other),
    }
    r.subdomain = Some("given".to_string());
    match on_server_reply(&r, "myapp") {
        ConnectOutcome::Active(u) => assert_eq!(u, "https://given.tunnel.example.com"),
        other => panic!("unexpected {:?}", other),
    }
    r.protocol = Some("tcp".to_string());
    match on_server_reply(&r, "myapp") {
        ConnectOutcome::Active(u) => assert_eq!(u, "tcp://tunnel.example.com:0"),
        other => panic!("unexpected {:?}", other),
    }
    r.tcp_port = Some("10000".to_string());
    match on_server_reply(&r, "myapp") {
        ConnectOutcome::Active(u) => assert_eq!(u, "tcp://tunnel.example.com:10000"),
        other => panic!("unexpected {:?}", other),
    }
}

#[test]
fn redirects_and_errors_end_the_attempt() {
    let mut r = reply(Some("redirect"));
    r.server = Some("server-2".to_string());
    match on_server_reply(&r, "s") {
        ConnectOutcome::Failed(m) => assert_eq!(m, "Redirect to: server-2"),
        other => panic!("unexpected {:?}", other),
    }
    match on_server_reply(&reply(Some("redirect")), "s") {
        ConnectOutcome::Failed(m) => assert_eq!(m, "Redirect to: "),
        other => panic!("unexpected {:?}", other),
    }
    let mut r = reply(Some("error"));
    match on_server_reply(&r, "s") {
        ConnectOutcome::Failed(m) => assert_eq!(m, "Unknown error"),
        other => panic!("unexpected {:?}", other),
    }
    r.message = Some("Invalid API key".to_string());
    match on_server_reply(&r, "s") {
        ConnectOutcome::Failed(m) => assert_eq!(m, "Invalid API key"),
        other => panic!("unexpected {:?}", other),
    }
}

#[test]
fn other_frames_are_skipped() {
    assert!(matches!(on_server_reply(&reply(Some("heartbeat_ack")), "s"), ConnectOutcome::Waiting));
    assert!(matches!(on_server_reply(&reply(None), "s"), ConnectOutcome::Waiting));
}

fn is_uuid_text(s: &str) -> bool {
    s.len() == 36
        && s.chars().enumerate().all(|(i, c)| {
            if i == 8 || i == 13 || i == 18 || i == 23 {
                c == '-'
            } else {
                c.is_ascii_digit() || ('a'..='f').contains(&c)
            }
        })
}

#[test]
fn missing_subdomain_gets_a_fresh_one() {
    assert_eq!(subdomain_or_default(Some("mine".to_string())), "mine");
    let a = subdomain_or_default(None);
    let b = subdomain_or_default(None);
    assert_eq!(a.len(), 13);
    assert!(a.starts_with("jrok-"));
    assert!(a[5..].chars().all(|c| c.is_ascii_digit() || ('a'..='f').contains(&c)));
    assert_ne!(a, b);
}

#[test]
fn fresh_records_have_uuid_ids() {
    let registry = jrok::agent::AgentRegistry::new("srv".to_string());
    let r = registry.new_agent_record("sub", 80, "localhost", jrok::db::Protocol::Http, 5);
    assert!(is_uuid_text(&r.id));
    assert!(is_uuid_text(&r.connection_token));
    assert_ne!(r.id, r.connection_token);
    assert_eq!(r.server_id, "srv");
    assert_eq!(r.subdomain, "sub");
    let (id, msg) = jrok::tunnel::new_request_message("POST".to_string(), "x", std::collections::HashMap::new(), vec![9]);
    assert!(is_uuid_text(&id));
    match msg {
        Message::HttpRequest { request_id, path, body, .. } => {
            assert_eq!(request_id, id);
            assert_eq!(path, "/x");
            assert_eq!(body, Some(vec![9]));
        },
        other => panic!("unexpected {:?}", other),
    }
    let (cid, notice) = jrok::tcp::connect_notice("1.2.3.4:5".to_string());
    assert!(is_uuid_text(&cid));
    match notice {
        Message::TcpConnect { connection_id, client_ip } => {
            assert_eq!(connection_id, cid);
            assert_eq!(client_ip, "1.2.3.4:5");
        },
        other => panic!("unexpected {:?}", other),
    }
}
