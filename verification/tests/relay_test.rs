use jrok::error::Error;
use jrok::relay::{ConnectionTracker, RelayServer, UdpHolePuncher};

fn track(tracker: &mut ConnectionTracker, session: &str, direct: bool, now: i64) {
    tracker.track_attempt(
        session.to_string(),
        "test.example.com".to_string(),
        "192.168.1.100:12345".to_string(),
        "agent-1".to_string(),
        direct,
        now,
    );
}

#[test]
fn test_connection_tracker() {
    let mut tracker = ConnectionTracker::new();

    tracker.track_attempt(
        "test-session".to_string(),
        "test.example.com".to_string(),
        "192.168.1.100:12345".to_string(),
        "agent-1".to_string(),
        true,
        1_000,
    );

    tracker.mark_success("test-session", 50, true, 1_050);

    let stats = tracker.get_stats();
    assert_eq!(stats.total_attempts, 1);
    assert_eq!(stats.direct_successes, 1);
    let success_rate = stats.direct_successes as f64 / stats.total_attempts as f64;
    assert_eq!(success_rate, 1.0);
}

#[test]
fn test_relay_server() {
    let mut relay = RelayServer::new(ConnectionTracker::new());

    let endpoint = relay
        .create_relay("test-session".to_string(), "192.168.1.100:12345".to_string(), "agent-1".to_string(), 1_000)
        .unwrap();

    assert!(endpoint.starts_with("relay:"));
    assert_eq!(endpoint, "relay:test-session");
    assert_eq!(relay.active_count(), 1);

    relay.close_relay("test-session", 2_000);
    assert_eq!(relay.active_count(), 0);
}

#[test]
fn success_records_latency_and_completion() {
    let mut tracker = ConnectionTracker::new();
    track(&mut tracker, "s1", true, 10);
    tracker.mark_success("s1", 75, false, 20);
    let s = tracker.session("s1").unwrap();
    assert!(s.direct_success);
    assert_eq!(s.latency_ms, 75);
    assert_eq!(s.completed_at, Some(20));
    assert_eq!(s.created_at, 10);
    let stats = tracker.get_stats();
    assert_eq!(stats.direct_successes, 0);
    assert_eq!(stats.relay_used, 1);
}

#[test]
fn unknown_sessions_are_ignored() {
    let mut tracker = ConnectionTracker::new();
    tracker.mark_success("nobody", 1, true, 5);
    tracker.mark_failed("nobody", true, 5);
    let stats = tracker.get_stats();
    assert_eq!(stats.total_attempts, 0);
    assert_eq!(stats.direct_successes, 0);
    assert_eq!(stats.relay_used, 0);
    assert_eq!(tracker.session_count(), 0);
    assert!(tracker.session("nobody").is_none());
}

#[test]
fn failure_with_and_without_relay() {
    let mut tracker = ConnectionTracker::new();
    track(&mut tracker, "a", true, 1);
    track(&mut tracker, "b", true, 2);
    tracker.mark_failed("a", false, 3);
    tracker.mark_failed("b", true, 4);
    assert_eq!(tracker.get_stats().relay_used, 1);
    assert!(!tracker.session("a").unwrap().relay_used);
    assert_eq!(tracker.session("a").unwrap().completed_at, Some(3));
    assert!(tracker.session("b").unwrap().relay_used);
    assert_eq!(tracker.get_stats().total_attempts, 2);
}

#[test]
fn tracking_again_replaces_the_record() {
    let mut tracker = ConnectionTracker::new();
    track(&mut tracker, "s", true, 1);
    tracker.mark_success("s", 9, true, 2);
    track(&mut tracker, "s", false, 3);
    assert_eq!(tracker.session_count(), 1);
    let s = tracker.session("s").unwrap();
    assert!(!s.direct_attempt);
    assert!(!s.direct_success);
    assert_eq!(s.created_at, 3);
    assert_eq!(tracker.get_stats().total_attempts, 2);
}

#[test]
fn cleanup_drops_old_attempts_only() {
    let mut tracker = ConnectionTracker::new();
    track(&mut tracker, "old", true, 100);
    track(&mut tracker, "edge", true, 500);
    track(&mut tracker, "new", true, 900);
    tracker.cleanup_old(500, 1_000);
    assert_eq!(tracker.session_count(), 1);
    assert!(tracker.session("new").is_some());
    assert!(tracker.session("edge").is_none());
    assert_eq!(tracker.get_stats().total_attempts, 3);
}

#[test]
fn relaying_counts_bytes() {
    let mut relay = RelayServer::new(ConnectionTracker::new());
    relay.create_relay("s".to_string(), "c".to_string(), "a".to_string(), 0).unwrap();
    assert!(relay.relay_to_agent("s", vec![1, 2, 3]).is_ok());
    assert!(relay.relay_to_client("s", vec![4, 5]).is_ok());
    assert_eq!(relay.active_count(), 1);
}

#[test]
fn relaying_without_a_relay_fails() {
    let mut relay = RelayServer::new(ConnectionTracker::new());
    match relay.relay_to_agent("none", vec![1]) {
        Err(Error::BadRequest(m)) => assert_eq!(m, "Relay connection not found"),
        other => panic!("unexpected {:?}", other),
    }
    relay.create_relay("s".to_string(), "c".to_string(), "a".to_string(), 0).unwrap();
    relay.close_relay("s", 1);
    match relay.relay_to_client("s", vec![1]) {
        Err(Error::BadRequest(m)) => assert_eq!(m, "Relay connection not found"),
        other => panic!("unexpected {:?}", other),
    }
}

#[test]
fn closing_a_relay_reports_it_to_the_tracker() {
    let mut tracker = ConnectionTracker::new();
    track(&mut tracker, "s", true, 1);
    let mut relay = RelayServer::new(tracker);
    relay.create_relay("s".to_string(), "c".to_string(), "a".to_string(), 2).unwrap();
    relay.close_relay("s", 3);
    let s = relay.tracker().session("s").unwrap();
    assert!(s.relay_used);
    assert_eq!(s.completed_at, Some(3));
    assert_eq!(relay.tracker().get_stats().relay_used, 1);
    // closing again changes nothing
    relay.close_relay("s", 4);
    assert_eq!(relay.tracker().get_stats().relay_used, 1);
}

#[test]
fn relay_cleanup_drops_old_relays() {
    let mut relay = RelayServer::new(ConnectionTracker::new());
    relay.create_relay("old".to_string(), "c".to_string(), "a".to_string(), 10).unwrap();
    relay.create_relay("new".to_string(), "c".to_string(), "a".to_string(), 90).unwrap();
    relay.cleanup_old(50, 100);
    assert_eq!(relay.active_count(), 1);
    assert!(relay.relay_to_agent("new", vec![0]).is_ok());
    assert!(relay.relay_to_agent("old", vec![0]).is_err());
}

#[test]
fn udp_puncher_timing() {
    let p = UdpHolePuncher::new();
    assert_eq!(p.punch_duration_ms(), 5000);
    assert_eq!(p.punch_interval_ms(), 200);
    assert!(p.keeps_punching(0));
    assert!(p.keeps_punching(4999));
    assert!(!p.keeps_punching(5000));
    let d = UdpHolePuncher::default();
    assert_eq!(d.punch_duration_ms(), 5000);
}

#[test]
fn a_session_succeeds_only_once() {
    let mut tracker = ConnectionTracker::new();
    track(&mut tracker, "s", true, 1);
    tracker.mark_success("s", 10, true, 2);
    tracker.mark_success("s", 12, true, 3);
    let stats = tracker.get_stats();
    assert_eq!(stats.total_attempts, 1);
    assert_eq!(stats.direct_successes, 1);
    assert!(stats.direct_successes <= stats.total_attempts);
    assert_eq!(tracker.session("s").unwrap().latency_ms, 12);
    // every relayed success is counted
    tracker.mark_success("s", 5, false, 4);
    tracker.mark_success("s", 6, false, 5);
    assert_eq!(tracker.get_stats().relay_used, 2);
    assert_eq!(tracker.get_stats().direct_successes, 1);
}
