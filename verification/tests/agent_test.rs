use jrok::agent::AgentRegistry;
use jrok::db::{Agent, Protocol, Server};
use jrok::error::Error;
use jrok::proto::Message;
use std::collections::HashMap;

fn agent_on(server_id: &str, active: bool) -> Agent {
    Agent {
        id: "agent-x".to_string(),
        subdomain: "test-subdomain".to_string(),
        server_id: server_id.to_string(),
        tunnel_id: None,
        local_port: 3000,
        local_host: "localhost".to_string(),
        protocol: Protocol::Http,
        connection_token: "token".to_string(),
        connected_at: 1,
        last_heartbeat: 1,
        active,
    }
}

fn server(id: &str, healthy: bool) -> Server {
    Server::from_row(id.to_string(), "h".to_string(), "t".to_string(), 0, 0, if healthy { 1 } else { 0 })
}

fn registry_with(ids: &[(&str, &str, i64)]) -> AgentRegistry {
    let mut r = AgentRegistry::new("test-server".to_string());
    for (id, sub, hb) in ids {
        let record = r.agent_record(id, "tok", sub, 3000, "localhost", Protocol::Http, *hb);
        r.register(&None, &None, record).unwrap();
    }
    r
}

#[test]
fn test_agent_registration() {
    let mut registry = AgentRegistry::new("test-server".to_string());
    assert!(registry.check_subdomain("test-subdomain", &None, &None).is_ok());
    let record = registry.agent_record("agent-1", "tok", "test-subdomain", 3000, "localhost", Protocol::Http, 42);
    assert_eq!(record.server_id, "test-server");
    assert_eq!(record.subdomain, "test-subdomain");
    assert_eq!(record.local_port, 3000);
    assert_eq!(record.connected_at, 42);
    assert_eq!(record.last_heartbeat, 42);
    assert!(record.active);
    assert!(record.tunnel_id.is_none());
    registry.register(&None, &None, record).unwrap();
    assert_eq!(registry.count(), 1);
    let (id, state) = registry.get_by_subdomain("test-subdomain").unwrap();
    assert_eq!(id, "agent-1");
    assert_eq!(state.local_port, 3000);
    assert_eq!(state.local_host, "localhost");
    assert_eq!(state.last_heartbeat, 42);
}

#[test]
fn test_tcp_agent_registration() {
    let mut registry = AgentRegistry::new("test-server".to_string());
    let record = registry.agent_record("agent-t", "tok", "tcp-test", 22, "localhost", Protocol::from("tcp"), 7);
    registry.register(&None, &None, record).unwrap();
    let (_, state) = registry.get_by_subdomain("tcp-test").unwrap();
    assert_eq!(state.protocol, Protocol::Tcp);
    assert_eq!(state.local_port, 22);
    assert_eq!(state.subdomain, "tcp-test");
}

#[test]
fn subdomain_on_healthy_foreign_server_is_taken() {
    let registry = AgentRegistry::new("test-server".to_string());
    let existing = Some(agent_on("other", true));
    assert_eq!(registry.owner_to_check(&existing), Some("other".to_string()));
    match registry.check_subdomain("test-subdomain", &existing, &Some(server("other", true))) {
        Err(Error::SubdomainTaken(m)) => assert_eq!(m, "Subdomain test-subdomain is on server other"),
        other => panic!("unexpected {:?}", other),
    }
    let e = registry.check_subdomain("test-subdomain", &existing, &Some(server("other", true))).unwrap_err();
    assert_eq!(e.message(), "Subdomain already taken: Subdomain test-subdomain is on server other");
}

#[test]
fn register_refuses_a_subdomain_held_elsewhere() {
    let mut registry = AgentRegistry::new("test-server".to_string());
    let existing = Some(agent_on("other", true));
    let record = registry.agent_record("a1", "tok", "test-subdomain", 3000, "localhost", Protocol::Http, 1);
    match registry.register(&existing, &Some(server("other", true)), record) {
        Err(Error::SubdomainTaken(m)) => assert_eq!(m, "Subdomain test-subdomain is on server other"),
        other => panic!("unexpected {:?}", other),
    }
    assert_eq!(registry.count(), 0);
    assert!(registry.get_by_subdomain("test-subdomain").is_none());
    // once that server is unhealthy, the subdomain can be taken over
    let record = registry.agent_record("a1", "tok", "test-subdomain", 3000, "localhost", Protocol::Http, 1);
    assert!(registry.register(&existing, &Some(server("other", false)), record).is_ok());
    assert_eq!(registry.count(), 1);
    assert_eq!(registry.get_by_subdomain("test-subdomain").unwrap().0, "a1");
}

#[test]
fn subdomain_on_unhealthy_or_own_server_is_free() {
    let registry = AgentRegistry::new("test-server".to_string());
    let foreign = Some(agent_on("other", true));
    assert!(registry.check_subdomain("s", &foreign, &Some(server("other", false))).is_ok());
    assert!(registry.check_subdomain("s", &foreign, &None).is_ok());
    let own = Some(agent_on("test-server", true));
    assert_eq!(registry.owner_to_check(&own), None);
    assert!(registry.check_subdomain("s", &own, &Some(server("test-server", true))).is_ok());
    assert_eq!(registry.owner_to_check(&None), None);
}

#[test]
fn test_cross_server_routing() {
    let registry = AgentRegistry::new("server-2".to_string());
    let found = Some(agent_on("server-1", true));
    assert_eq!(registry.get_agent_server(&found), Some("server-1".to_string()));
    assert_eq!(registry.get_agent_server(&Some(agent_on("server-1", false))), None);
    assert_eq!(registry.get_agent_server(&None), None);
}

#[test]
fn unregister_forgets_the_agent() {
    let mut registry = registry_with(&[("a1", "one", 1), ("a2", "two", 1)]);
    let st = registry.unregister("a1").unwrap();
    assert_eq!(st.subdomain, "one");
    assert!(registry.get_by_subdomain("one").is_none());
    assert!(registry.unregister("a1").is_none());
    assert_eq!(registry.count(), 1);
}

#[test]
fn test_agent_cleanup() {
    // an agent just registered survives a cleanup with a 1 ms timeout
    let just_now = registry_with(&[("new", "cleanup-test", 1_000)]);
    assert!(just_now.stale_agents(1, 1_000).is_empty());
    assert_eq!(just_now.count(), 1);
    assert!(just_now.get_by_subdomain("cleanup-test").is_some());

    let registry = registry_with(&[("old", "a", 100), ("fresh", "b", 950), ("edge", "c", 500)]);
    let mut stale = registry.stale_agents(500, 1_000);
    stale.sort();
    assert_eq!(stale, vec!["old".to_string()]);
    // a heartbeat keeps an agent alive
    let mut registry = registry;
    registry.update_heartbeat("old", 900);
    assert!(registry.stale_agents(500, 1_000).is_empty());
    registry.update_heartbeat("ghost", 900);
    assert_eq!(registry.count(), 3);
    assert_eq!(registry.get_by_subdomain("a").unwrap().1.last_heartbeat, 900);
    let mut all = registry.stale_agents(0, 10_000);
    all.sort();
    assert_eq!(all, vec!["edge".to_string(), "fresh".to_string(), "old".to_string()]);
}

#[test]
fn messages_go_only_to_connected_agents() {
    let registry = registry_with(&[("a1", "one", 1)]);
    match registry.send_message("a1", Message::HeartbeatAck) {
        Ok(Message::HeartbeatAck) => {},
        other => panic!("unexpected {:?}", other),
    }
    match registry.send_message("ghost", Message::HeartbeatAck) {
        Err(Error::AgentNotFound(m)) => assert_eq!(m, "ghost"),
        other => panic!("unexpected {:?}", other),
    }
}

#[test]
fn responses_reach_waiting_requests_once() {
    let mut registry = AgentRegistry::new("s".to_string());
    registry.create_pending_request("req-1");
    let mut headers = HashMap::new();
    headers.insert("content-type".to_string(), "text/plain".to_string());
    let resp = registry.handle_response("req-1".to_string(), 200, headers.clone(), Some("aGVsbG8gd29ybGQ=".to_string()));
    let resp = resp.unwrap();
    assert_eq!(resp.status, 200);
    assert_eq!(resp.headers, headers);
    assert_eq!(resp.body, b"hello world".to_vec());
    assert!(registry.handle_response("req-1".to_string(), 200, HashMap::new(), None).is_none());
}

#[test]
fn undecodable_or_missing_bodies_are_empty() {
    let mut registry = AgentRegistry::new("s".to_string());
    registry.create_pending_request("r1");
    registry.create_pending_request("r2");
    assert!(registry.handle_response("r1".to_string(), 500, HashMap::new(), Some("%%%".to_string())).unwrap().body.is_empty());
    assert!(registry.handle_response("r2".to_string(), 204, HashMap::new(), None).unwrap().body.is_empty());
}

#[test]
fn removed_requests_get_no_answer() {
    let mut registry = AgentRegistry::new("s".to_string());
    registry.create_pending_request("r");
    registry.remove_pending_request("r");
    assert!(registry.handle_response("r".to_string(), 200, HashMap::new(), None).is_none());
    assert_eq!(registry.server_id(), "s");
}
