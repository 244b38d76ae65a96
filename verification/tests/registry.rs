//! Statistics registry: counters, the live set, per-user rollups, the
//! bounded history, and relay byte accounting.

use net_relay::connection::{ConnectionInfo, ConnectionState, Protocol};
use net_relay::relay::RelayCounter;
use net_relay::stats::Stats;

fn conn(user: Option<&str>) -> ConnectionInfo {
    ConnectionInfo::with_user(
        Protocol::Socks5,
        "127.0.0.1:5000".to_string(),
        "example.com".to_string(),
        443,
        user.map(|u| u.to_string()),
    )
}

#[test]
fn close_decrements_active_keeps_total_bounds_history() {
    let mut stats = Stats::new(1000);
    let c = conn(None);
    let id = c.id;
    stats.add_connection(c);
    assert_eq!(stats.total_connections, 1);
    assert_eq!(stats.active.len(), 1);
    let active_before = stats.active.len();
    let total_before = stats.total_connections;
    stats.close_connection(id, 5, 5);
    assert_eq!(stats.active.len(), active_before - 1);
    assert_eq!(stats.total_connections, total_before);
    assert!(stats.history.len() <= stats.max_history);
    assert_eq!(stats.history.len(), 1);
    let closed = &stats.history[0].info;
    assert_eq!(closed.state, ConnectionState::Closed);
    assert!(closed.closed_at.is_some());
    assert_eq!(closed.bytes_sent, 5);
    assert_eq!(closed.bytes_received, 5);
    assert_eq!(stats.total_bytes_sent, 5);
    assert_eq!(stats.total_bytes_received, 5);
}

#[test]
fn user_rollup_over_connection_lifecycle() {
    let mut stats = Stats::new(10);
    let c = conn(Some("alice"));
    let id = c.id;
    let before_active = stats
        .get_user("alice")
        .map(|u| u.active_connections)
        .unwrap_or(0);
    stats.add_connection(c);
    let during = stats.get_user("alice").unwrap();
    assert!(during.active_connections >= 1);
    assert_eq!(during.total_connections, 1);
    stats.close_connection(id, 7, 3);
    let after = stats.get_user("alice").unwrap();
    assert_eq!(after.active_connections, before_active);
    assert_eq!(after.total_connections, 1);
    assert_eq!(after.total_bytes_sent, 7);
    assert_eq!(after.total_bytes_received, 3);
    assert!(after.last_activity.is_some());
}

#[test]
fn rejected_connection_leaves_no_trace() {
    let stats = Stats::new(10);
    // An address blocked before the handshake registers nothing.
    assert_eq!(stats.total_connections, 0);
    assert_eq!(stats.active.len(), 0);
    assert_eq!(stats.get_user_stats().len(), 0);
}

#[test]
fn missing_id_close_is_a_no_op() {
    let mut stats = Stats::new(10);
    stats.add_connection(conn(None));
    stats.close_connection(12345, 1, 1);
    assert_eq!(stats.active.len(), 1);
    assert_eq!(stats.history.len(), 0);
    assert_eq!(stats.total_bytes_sent, 0);
}

#[test]
fn history_drops_oldest_at_capacity() {
    let mut stats = Stats::new(2);
    let mut ids = Vec::new();
    for _ in 0..3 {
        let c = conn(None);
        ids.push(c.id);
        stats.add_connection(c);
    }
    stats.close_connection(ids[0], 1, 0);
    stats.close_connection(ids[1], 2, 0);
    stats.close_connection(ids[2], 3, 0);
    assert_eq!(stats.history.len(), 2);
    assert_eq!(stats.history[0].info.bytes_sent, 2);
    assert_eq!(stats.history[1].info.bytes_sent, 3);
}

#[test]
fn history_is_most_recent_first_and_truncated() {
    let mut stats = Stats::new(10);
    let mut ids = Vec::new();
    for _ in 0..3 {
        let c = conn(None);
        ids.push(c.id);
        stats.add_connection(c);
    }
    stats.close_connection(ids[0], 1, 0);
    stats.close_connection(ids[1], 2, 0);
    stats.close_connection(ids[2], 3, 0);
    let all = stats.get_history(None);
    assert_eq!(all.len(), 3);
    assert_eq!(all[0].info.bytes_sent, 3);
    assert_eq!(all[2].info.bytes_sent, 1);
    let two = stats.get_history(Some(2));
    assert_eq!(two.len(), 2);
    assert_eq!(two[0].info.bytes_sent, 3);
    assert_eq!(two[1].info.bytes_sent, 2);
}

#[test]
fn aggregated_snapshot() {
    let mut stats = Stats::new(10);
    stats.add_connection(conn(Some("bob")));
    stats.add_bytes(10, 20);
    let agg = stats.get_aggregated();
    assert_eq!(agg.total_connections, 1);
    assert_eq!(agg.active_connections, 1);
    assert_eq!(agg.total_bytes_sent, 10);
    assert_eq!(agg.total_bytes_received, 20);
    assert_eq!(agg.users.len(), 1);
    assert_eq!(agg.users[0].username, "bob");
    assert_eq!(agg.started_at, stats.started_at);
}

#[test]
fn active_snapshot_matches_live_set() {
    let mut stats = Stats::new(10);
    stats.add_connection(conn(None));
    let active = stats.get_active();
    assert_eq!(active.len(), 1);
    assert_eq!(active[0].target_addr, "example.com");
    assert_eq!(active[0].target_port, 443);
}

#[test]
fn relay_counter_totals_are_chunk_sums() {
    let mut a = RelayCounter::new();
    a.record_chunk(3);
    a.record_chunk(2);
    let mut b = RelayCounter::new();
    b.record_chunk(5);
    // Each direction reports exactly the bytes its peer observed.
    assert_eq!(a.total, 5);
    assert_eq!(b.total, 5);
}

#[test]
fn connection_record_lifecycle() {
    let mut c = conn(Some("alice"));
    assert_eq!(c.state, ConnectionState::Connecting);
    assert_eq!(c.bytes_sent, 0);
    assert!(c.closed_at.is_none());
    assert_eq!(c.username.as_deref(), Some("alice"));
    c.set_active();
    assert_eq!(c.state, ConnectionState::Active);
    c.set_closing();
    assert_eq!(c.state, ConnectionState::Closing);
    c.add_bytes_sent(4);
    c.add_bytes_received(6);
    assert_eq!(c.bytes_sent, 4);
    assert_eq!(c.bytes_received, 6);
    c.set_closed();
    assert_eq!(c.state, ConnectionState::Closed);
    assert!(c.closed_at.is_some());
}

#[test]
fn byte_counters_saturate() {
    let mut c = conn(None);
    c.add_bytes_sent(u64::MAX);
    c.add_bytes_sent(1);
    assert_eq!(c.bytes_sent, u64::MAX);
}

#[test]
fn duration_is_close_minus_connect() {
    let c = ConnectionInfo {
        id: 1,
        protocol: Protocol::Socks5,
        client_addr: "127.0.0.1:5000".to_string(),
        target_addr: "example.com".to_string(),
        target_port: 443,
        state: ConnectionState::Closed,
        connected_at: 100,
        closed_at: Some(160),
        bytes_sent: 0,
        bytes_received: 0,
        username: None,
    };
    assert_eq!(c.duration_secs(), 60);
}
