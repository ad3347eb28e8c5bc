use jrok::agent::AgentState;
use jrok::cluster::{leader_action, leadership_after, next_leader_term, LeaderAction};
use jrok::config::{Config, ConfigVars};
use jrok::db::{hash_api_key, key_prefix, Agent, ApiKey, ClusterState, Protocol, Server, Tunnel};
use jrok::error::Error;
use jrok::proto::Message;
use jrok::session::{auth_failure, on_agent_message, welcome, AgentAction};
use jrok::tcp::{
    allocation_step, next_port_candidate, tcp_tunnel_reply, AllocationStep, TcpConnectionManager, TcpForwarder,
};
use jrok::tunnel::{http_request_message, route_request, trim_slashes, ProxyRoute};
use std::collections::HashMap;

fn state(leader: Option<&str>, term: i64, last: i64) -> Option<ClusterState> {
    Some(ClusterState::from_row(leader.map(|s| s.to_string()), term, last))
}

#[test]
fn test_leader_election() {
    // no state yet: claim the first term, and a lone server leads once the claim succeeds
    let first = leader_action(&None, "test-server", 100_000, 15_000);
    assert_eq!(first, LeaderAction::TryBecomeLeader);
    assert_eq!(next_leader_term(&None), 1);
    assert!(leadership_after(first, true));
    // no leader: claim the next term
    let s = state(None, 3, 0);
    assert_eq!(leader_action(&s, "test-server", 100_000, 15_000), LeaderAction::TryBecomeLeader);
    assert_eq!(next_leader_term(&s), 4);
    // a live leader that is this server renews
    let s = state(Some("test-server"), 4, 95_000);
    assert_eq!(leader_action(&s, "test-server", 100_000, 15_000), LeaderAction::RenewLeadership);
    // a live leader elsewhere: step down
    assert_eq!(leader_action(&s, "other", 100_000, 15_000), LeaderAction::StepDown);
    // an expired lease: claim
    let s = state(Some("other"), 4, 80_000);
    let claim = leader_action(&s, "test-server", 100_000, 15_000);
    assert_eq!(claim, LeaderAction::TryBecomeLeader);
    // an expired leader whose re-claim fails no longer leads
    let s = state(Some("test-server"), 4, 80_000);
    let reclaim = leader_action(&s, "test-server", 100_000, 15_000);
    assert_eq!(reclaim, LeaderAction::TryBecomeLeader);
    assert!(!leadership_after(reclaim, false));
    // exactly at the timeout the lease still holds
    let s = state(Some("other"), 4, 85_000);
    assert_eq!(leader_action(&s, "test-server", 100_000, 15_000), LeaderAction::StepDown);
}

#[test]
fn empty_leader_id_means_no_leader() {
    let s = state(Some(""), 2, 99_999);
    assert!(s.as_ref().unwrap().leader_id.is_none());
    assert_eq!(leader_action(&s, "x", 100_000, 15_000), LeaderAction::TryBecomeLeader);
}

#[test]
fn leadership_follows_the_outcome() {
    assert!(leadership_after(LeaderAction::TryBecomeLeader, true));
    // a failed claim means another server holds the lease
    assert!(!leadership_after(LeaderAction::TryBecomeLeader, false));
    assert!(leadership_after(LeaderAction::RenewLeadership, true));
    assert!(!leadership_after(LeaderAction::RenewLeadership, false));
    assert!(!leadership_after(LeaderAction::StepDown, true));
}

#[test]
fn test_api_key_creation() {
    let key = ApiKey::for_key("test-key-id", "jrok_test_secret_key", Some("Test Key"), 1_700_000_000_000);
    assert_eq!(key.id, "test-key-id");
    assert_eq!(key.key_prefix, "jrok_tes");
    assert_eq!(key.name, Some("Test Key".to_string()));
    assert_eq!(key.created_at, 1_700_000_000_000);
    assert_eq!(key.key_hash, "YLTv2/qvgSXnactnjxaV11bQBJ/fPCvZtc/Vr94lwHg=");
    assert_eq!(key.key_hash, hash_api_key("jrok_test_secret_key"));
}

#[test]
fn test_invalid_api_key() {
    let stored = hash_api_key("jrok_test_secret_key");
    assert_ne!(hash_api_key("invalid_key"), stored);
    assert_eq!(hash_api_key("invalid_key"), "32hm3BcZhugE2Z6kolU0gkER+u9Uww5NA7pSjM1TmtY=");
    assert_eq!(hash_api_key(""), "dum00J+gybAnvf0e7SSnP9uv9fKcXmqGcad01mPn/88=");
    assert_eq!(hash_api_key("anything").len(), 44);
}

#[test]
fn key_prefixes() {
    assert_eq!(key_prefix("jrok_1234567890"), "jrok_123");
    assert_eq!(key_prefix("short"), "short");
    assert_eq!(key_prefix(""), "");
    assert_eq!(key_prefix("ééééééééé"), "éééééééé");
    assert!(ApiKey::for_key("i", "k", None, 0).name.is_none());
}

#[test]
fn protocol_names() {
    assert_eq!(Protocol::from("tcp"), Protocol::Tcp);
    assert_eq!(Protocol::from("TCP"), Protocol::Tcp);
    assert_eq!(Protocol::from("TcP"), Protocol::Tcp);
    assert_eq!(Protocol::from("http"), Protocol::Http);
    assert_eq!(Protocol::from("udp"), Protocol::Http);
    assert_eq!(Protocol::from(""), Protocol::Http);
    assert_eq!(Protocol::default(), Protocol::Http);
    assert_eq!(Protocol::Tcp.to_text(), "tcp");
    assert_eq!(Protocol::Http.to_text(), "http");
    for p in [Protocol::Http, Protocol::Tcp] {
        assert_eq!(Protocol::from(p.to_text().as_str()), p);
    }
}

#[test]
fn rows_become_records() {
    let a = Agent::from_row(
        "id".to_string(),
        "sub".to_string(),
        "srv".to_string(),
        "tun".to_string(),
        65_536 + 22,
        "localhost".to_string(),
        "tcp",
        "tok".to_string(),
        1,
        2,
        0,
    );
    assert_eq!(a.local_port, 22);
    assert_eq!(a.protocol, Protocol::Tcp);
    assert_eq!(a.tunnel_id, Some("tun".to_string()));
    assert!(!a.active);
    let t = Tunnel::from_row("t".to_string(), "s".to_string(), "http", Some(10_000), None, 1, 2, 5);
    assert_eq!(t.tcp_port, Some(10_000));
    assert!(t.active);
    assert_eq!(t.protocol, Protocol::Http);
    let t = Tunnel::from_row("t".to_string(), "s".to_string(), "tcp", None, Some("k".to_string()), 1, 2, 0);
    assert_eq!(t.tcp_port, None);
    assert!(!t.active);
}

fn agent_state(protocol: Protocol) -> AgentState {
    AgentState {
        subdomain: "db".to_string(),
        local_port: 5432,
        local_host: "localhost".to_string(),
        protocol,
        last_heartbeat: 0,
    }
}

#[test]
fn tcp_tunnel_replies() {
    let (status, text) = tcp_tunnel_reply("db", 10_001, &Some(("agent-1".to_string(), agent_state(Protocol::Tcp))), &None);
    assert_eq!(status, 200);
    assert_eq!(text, "TCP tunnel ready for 'db' on port 10001. Agent: agent-1");
    let (status, text) = tcp_tunnel_reply("db", 1, &Some(("agent-1".to_string(), agent_state(Protocol::Http))), &None);
    assert_eq!(status, 400);
    assert_eq!(text, "Agent is not configured for TCP tunneling. Use protocol='tcp' in registration.");
    let (status, text) = tcp_tunnel_reply("db", 1, &None, &Some("server-9".to_string()));
    assert_eq!(status, 400);
    assert_eq!(text, "Agent 'db' is on remote server 'server-9'. Connect directly to that server.");
    let (status, text) = tcp_tunnel_reply("db", 1, &None, &None);
    assert_eq!(status, 404);
    assert_eq!(text, "Tunnel 'db' not found. No agent registered.");
}

#[test]
fn test_tcp_port_allocation() {
    // the database walks the range from its start
    assert_eq!(next_port_candidate(10_000, 10_010, None), Some(10_000));
    assert_eq!(next_port_candidate(10_000, 10_010, Some(10_000)), Some(10_001));
    assert_eq!(next_port_candidate(10_000, 10_010, Some(10_009)), None);
    assert_eq!(next_port_candidate(10_000, 10_000, None), None);
    // the tunnel takes the first port the database claims
    assert!(matches!(allocation_step(10_000, 10_010, &vec![]), AllocationStep::Ask));
    assert!(matches!(allocation_step(10_000, 10_010, &vec![None, Some(10_003)]), AllocationStep::Done(Ok(10_003))));
    // and gives up after one attempt per port
    let empty: Vec<Option<u16>> = vec![None; 10];
    assert!(matches!(allocation_step(10_000, 10_010, &empty), AllocationStep::Done(Err(Error::NoTcpPort))));
    assert!(matches!(allocation_step(10_000, 10_010, &vec![None; 9]), AllocationStep::Ask));
    assert!(matches!(allocation_step(5, 5, &vec![]), AllocationStep::Done(Err(Error::NoTcpPort))));
}

#[test]
fn listeners_by_subdomain() {
    let mut f = TcpForwarder::new();
    assert!(f.start_listener("db".to_string(), 10_001).is_ok());
    assert_eq!(f.listener_port("db"), Some(10_001));
    assert!(f.stop_listener("db").is_ok());
    assert_eq!(f.listener_port("db"), None);
    assert!(f.stop_listener("db").is_ok());
}

#[test]
fn tcp_data_is_forwarded_in_base64() {
    let mut m = TcpConnectionManager::new();
    m.create_connection("c1".to_string(), "agent-1".to_string(), "db".to_string(), "1.2.3.4:5".to_string());
    match m.forward_data("c1", b"hello world") {
        Some((agent, Message::TcpData { connection_id, data })) => {
            assert_eq!(agent, "agent-1");
            assert_eq!(connection_id, "c1");
            assert_eq!(data, "aGVsbG8gd29ybGQ=");
        },
        other => panic!("unexpected {:?}", other),
    }
    match m.forward_data("c1", &[0, 1, 2, 255]) {
        Some((_, Message::TcpData { data, .. })) => assert_eq!(data, "AAEC/w=="),
        other => panic!("unexpected {:?}", other),
    }
    m.remove_connection("c1");
    assert!(m.forward_data("c1", b"x").is_none());
}

fn server_at(id: &str, http_host: &str) -> Option<Server> {
    Some(Server::from_row(id.to_string(), http_host.to_string(), "t".to_string(), 0, 0, 1))
}

#[test]
fn requests_are_routed() {
    match route_request("api/v1", &Some("agent-1".to_string()), &server_at("other", "o:1")) {
        ProxyRoute::Forward(a) => assert_eq!(a, "agent-1"),
        other => panic!("unexpected {:?}", other),
    }
    match route_request("api/v1", &None, &server_at("server-2", "server2.example.com:8080")) {
        ProxyRoute::Redirect(u) => assert_eq!(u, "http://server2.example.com:8080/api/v1"),
        other => panic!("unexpected {:?}", other),
    }
    match route_request("", &None, &server_at("x", "s")) {
        ProxyRoute::Redirect(u) => assert_eq!(u, "http://s/"),
        other => panic!("unexpected {:?}", other),
    }
    match route_request("//x", &None, &server_at("x", "s")) {
        ProxyRoute::Redirect(u) => assert_eq!(u, "http://s/x"),
        other => panic!("unexpected {:?}", other),
    }
    assert!(matches!(route_request("a", &None, &None), ProxyRoute::NotFound));
    assert_eq!(trim_slashes("///a/b/"), "a/b/");
    assert_eq!(trim_slashes("a"), "a");
    assert_eq!(trim_slashes("//"), "");
}

#[test]
fn forwarded_requests_carry_the_path() {
    let mut h = HashMap::new();
    h.insert("host".to_string(), "x.example.com".to_string());
    match http_request_message("r1".to_string(), "GET".to_string(), "api/v1", h.clone(), vec![1, 2]) {
        Message::HttpRequest { request_id, method, path, headers, body } => {
            assert_eq!(request_id, "r1");
            assert_eq!(method, "GET");
            assert_eq!(path, "/api/v1");
            assert_eq!(headers, h);
            assert_eq!(body, Some(vec![1, 2]));
        },
        other => panic!("unexpected {:?}", other),
    }
}

#[test]
fn agent_messages_are_dispatched() {
    let reg = Message::Register {
        subdomain: "s".to_string(),
        local_port: 3000,
        local_host: "localhost".to_string(),
        protocol: "http".to_string(),
        api_key: "k".to_string(),
    };
    assert!(matches!(on_agent_message(&None, reg), AgentAction::Register { local_port: 3000, .. }));
    assert!(matches!(on_agent_message(&None, Message::Heartbeat), AgentAction::Ignore));
    match on_agent_message(&Some("a1".to_string()), Message::Heartbeat) {
        AgentAction::Heartbeat(id) => assert_eq!(id, "a1"),
        other => panic!("unexpected {:?}", other),
    }
    let resp = Message::HttpResponse {
        request_id: "r".to_string(),
        status: 201,
        headers: HashMap::new(),
        body: Some(b"hello world".to_vec()),
    };
    match on_agent_message(&Some("a1".to_string()), resp.clone()) {
        AgentAction::DeliverResponse { request_id, status, body, .. } => {
            assert_eq!(request_id, "r");
            assert_eq!(status, 201);
            assert_eq!(body, Some("aGVsbG8gd29ybGQ=".to_string()));
        },
        other => panic!("unexpected {:?}", other),
    }
    assert!(matches!(on_agent_message(&None, resp), AgentAction::Ignore));
    let connect = Message::TcpConnect { connection_id: "c".to_string(), client_ip: "1.2.3.4:5".to_string() };
    assert!(matches!(on_agent_message(&Some("a".to_string()), connect), AgentAction::Send(Message::TcpConnect { .. })));
    let disconnect = Message::TcpDisconnect { connection_id: "c".to_string() };
    assert!(matches!(on_agent_message(&Some("a".to_string()), disconnect), AgentAction::Send(Message::TcpDisconnect { .. })));
    let data = Message::TcpData { connection_id: "c".to_string(), data: "AA==".to_string() };
    assert!(matches!(on_agent_message(&Some("a".to_string()), data), AgentAction::Ignore));
    assert!(matches!(on_agent_message(&Some("a".to_string()), Message::HeartbeatAck), AgentAction::Ignore));
}

#[test]
fn authentication_answers() {
    assert!(auth_failure(Some(true)).is_none());
    match auth_failure(Some(false)) {
        Some(Message::Error { message }) => assert_eq!(message, "Invalid API key"),
        other => panic!("unexpected {:?}", other),
    }
    match auth_failure(None) {
        Some(Message::Error { message }) => assert_eq!(message, "Authentication failed"),
        other => panic!("unexpected {:?}", other),
    }
    match welcome("a".to_string(), "s".to_string(), "tcp".to_string()) {
        Message::Welcome { agent_id, subdomain, protocol } => {
            assert_eq!(agent_id, "a");
            assert_eq!(subdomain, "s");
            assert_eq!(protocol, "tcp");
        },
        other => panic!("unexpected {:?}", other),
    }
}

fn vars() -> ConfigVars {
    ConfigVars {
        server_id: None,
        http_host: Some("localhost".to_string()),
        http_port: None,
        tcp_host: Some("127.0.0.1".to_string()),
        tcp_port_start: None,
        tcp_port_end: None,
        base_domain: Some("test.com".to_string()),
        turso_url: Some("libsql://db".to_string()),
        turso_token: Some("t".to_string()),
        heartbeat_interval_ms: None,
        leader_timeout_ms: None,
        agent_timeout_ms: None,
    }
}

#[test]
fn settings_take_their_defaults() {
    let c = Config::from_vars(vars(), "fresh".to_string()).unwrap();
    assert_eq!(c.server_id, "fresh");
    assert_eq!(c.http_port, 8080);
    assert_eq!(c.tcp_port_start, 10_000);
    assert_eq!(c.tcp_port_end, 20_000);
    assert_eq!(c.heartbeat_interval_ms, 5_000);
    assert_eq!(c.leader_timeout_ms, 15_000);
    assert_eq!(c.agent_timeout_ms, 30_000);
    assert_eq!(c.tcp_port_range(), 10_000..20_000);
}

#[test]
fn unset_server_id_gets_a_fresh_one() {
    let c = Config::from_env_vars(vars()).unwrap();
    assert_eq!(c.server_id.len(), 36);
    assert_eq!(c.server_id.matches('-').count(), 4);
    assert_eq!(c.http_port, 8080);
    let mut v = vars();
    v.server_id = Some("server-1".to_string());
    assert_eq!(Config::from_env_vars(v).unwrap().server_id, "server-1");
    // the README's own .env sets no BASE_DOMAIN
    let mut v = vars();
    v.base_domain = None;
    v.server_id = Some("server-1".to_string());
    v.http_host = Some("0.0.0.0".to_string());
    v.http_port = Some("8080".to_string());
    v.tcp_host = Some("0.0.0.0".to_string());
    v.heartbeat_interval_ms = Some("5000".to_string());
    v.leader_timeout_ms = Some("15000".to_string());
    v.agent_timeout_ms = Some("30000".to_string());
    let c = Config::from_env_vars(v).unwrap();
    assert_eq!(c.server_id, "server-1");
    assert!(c.base_domain.is_none());
    assert_eq!(c.tcp_port_range(), 10_000..20_000);
    assert_eq!(c.agent_timeout_ms, 30_000);
}

#[test]
fn settings_read_their_variables() {
    let mut v = vars();
    v.server_id = Some("test-server".to_string());
    v.http_port = Some("+8081".to_string());
    v.tcp_port_start = Some("100".to_string());
    v.tcp_port_end = Some("200".to_string());
    v.agent_timeout_ms = Some("18446744073709551615".to_string());
    let c = Config::from_vars(v, "fresh".to_string()).unwrap();
    assert_eq!(c.server_id, "test-server");
    assert_eq!(c.http_port, 8081);
    assert_eq!(c.tcp_port_range(), 100..200);
    assert_eq!(c.agent_timeout_ms, u64::MAX);
}

#[test]
fn settings_report_the_first_problem() {
    let mut v = vars();
    v.http_host = None;
    v.http_port = Some("x".to_string());
    assert_eq!(Config::from_vars(v, String::new()).unwrap_err(), "HTTP_HOST required");
    let mut v = vars();
    v.http_port = Some("65536".to_string());
    assert_eq!(Config::from_vars(v, String::new()).unwrap_err(), "Invalid HTTP_PORT");
    let mut v = vars();
    v.turso_token = None;
    assert_eq!(Config::from_vars(v, String::new()).unwrap_err(), "TURSO_TOKEN required");
    let mut v = vars();
    v.leader_timeout_ms = Some("18446744073709551616".to_string());
    assert_eq!(Config::from_vars(v, String::new()).unwrap_err(), "Invalid LEADER_TIMEOUT_MS");
    let mut v = vars();
    v.heartbeat_interval_ms = Some("-5".to_string());
    assert_eq!(Config::from_vars(v, String::new()).unwrap_err(), "Invalid HEARTBEAT_INTERVAL_MS");
}

#[test]
fn error_texts() {
    assert_eq!(Error::NoTcpPort.message(), "No available TCP port");
    assert_eq!(Error::AgentNotFound("a".to_string()).message(), "Agent not found: a");
    assert_eq!(Error::Internal("boom".to_string()).message(), "Internal error: boom");
    assert_eq!(Error::InvalidApiKey.message(), "Invalid API key");
    assert_eq!(Error::Timeout.message(), "Connection timeout");
    assert_eq!(Error::Database("x".to_string()).message(), "Database error: x");
}
