use flare_core::error::ErrorCode;
use flare_core::manager::{ensure_frame_allowed_for_connection, frame_allowed_before_auth, ConnectionManager};
use flare_core::protocol::{connect, frame_with_system_command, ping, Frame, Reliability, SerializationFormat};

struct MockConnection {
    tag: u32,
}

impl MockConnection {
    fn new() -> Self {
        MockConnection { tag: 0 }
    }
}

fn add_and_get(manager: &mut ConnectionManager<MockConnection>) {
    manager.add_connection("conn1".to_string(), MockConnection::new(), None, false).unwrap();

    let (_, info) = manager.get_connection("conn1").unwrap();
    assert_eq!(info.connection_id, "conn1");
}

#[test]
fn manager_test_add_and_get_connection() {
    let mut manager = ConnectionManager::new();
    add_and_get(&mut manager);
}

#[test]
fn tests_test_add_and_get_connection() {
    let mut manager = ConnectionManager::new();
    add_and_get(&mut manager);
}

fn remove(manager: &mut ConnectionManager<MockConnection>) {
    manager.add_connection("conn1".to_string(), MockConnection::new(), None, false).unwrap();
    assert_eq!(manager.connection_count(), 1);

    manager.remove_connection("conn1").unwrap();
    assert_eq!(manager.connection_count(), 0);
}

#[test]
fn manager_test_remove_connection() {
    remove(&mut ConnectionManager::new());
}

#[test]
fn tests_test_remove_connection() {
    remove(&mut ConnectionManager::new());
}

fn user_binding(manager: &mut ConnectionManager<MockConnection>) {
    manager.add_connection("conn1".to_string(), MockConnection::new(), None, false).unwrap();
    manager.bind_user("conn1", "user1".to_string()).unwrap();

    let connections = manager.get_user_connections("user1");
    assert_eq!(connections, vec!["conn1"]);
    assert_eq!(manager.user_count(), 1);

    manager.remove_connection("conn1").unwrap();
    assert_eq!(manager.user_count(), 0);
}

#[test]
fn manager_test_user_binding() {
    user_binding(&mut ConnectionManager::new());
}

#[test]
fn tests_test_user_binding() {
    user_binding(&mut ConnectionManager::new());
}

fn same_user(manager: &mut ConnectionManager<MockConnection>) {
    manager.add_connection("conn1".to_string(), MockConnection::new(), Some("user1".to_string()), false).unwrap();
    manager.add_connection("conn2".to_string(), MockConnection::new(), Some("user1".to_string()), false).unwrap();

    assert_eq!(manager.user_count(), 1);

    manager.remove_connection("conn1").unwrap();
    assert_eq!(manager.user_count(), 1);

    manager.remove_connection("conn2").unwrap();
    assert_eq!(manager.user_count(), 0);
}

#[test]
fn manager_test_same_user_multiple_connections_count_as_one_user() {
    same_user(&mut ConnectionManager::new());
}

#[test]
fn tests_test_same_user_multiple_connections_count_as_one_user() {
    same_user(&mut ConnectionManager::new());
}

fn limit(manager: &mut ConnectionManager<MockConnection>) {
    manager.add_connection_with_limit("conn1".to_string(), MockConnection::new(), None, false, 1).unwrap();

    let result = manager.add_connection_with_limit("conn2".to_string(), MockConnection::new(), None, false, 1);

    assert!(result.is_err());
    assert_eq!(manager.connection_count(), 1);
    assert!(manager.get_connection("conn2").is_none());
}

#[test]
fn manager_test_add_connection_with_limit_rejects_when_capacity_full() {
    limit(&mut ConnectionManager::new());
}

#[test]
fn tests_test_add_connection_with_limit_rejects_when_capacity_full() {
    limit(&mut ConnectionManager::new());
}

fn cleanup(manager: &mut ConnectionManager<MockConnection>) {
    manager.add_connection_with_limit_at("conn1".to_string(), MockConnection::new(), None, false, usize::MAX, 1_000).unwrap();

    let cleaned = manager.cleanup_timeout_connections_at(5, 1_010);
    assert!(cleaned.contains(&"conn1".to_string()));
    assert_eq!(manager.connection_count(), 0);
}

#[test]
fn manager_test_cleanup_timeout() {
    cleanup(&mut ConnectionManager::new());
}

#[test]
fn tests_test_cleanup_timeout() {
    cleanup(&mut ConnectionManager::new());
}

fn snapshots(manager: &mut ConnectionManager<MockConnection>) {
    for idx in 0..2 {
        manager.add_connection(format!("conn{idx}"), MockConnection::new(), None, false).unwrap();
    }

    let snapshots = manager.connection_snapshots();
    assert_eq!(snapshots.len(), 2);

    let mut snapshot_ids: Vec<_> = snapshots
        .into_iter()
        .map(|(connection_id, info)| {
            assert_eq!(info.connection_id, connection_id);
            connection_id
        })
        .collect();
    snapshot_ids.sort();

    assert_eq!(snapshot_ids, vec!["conn0", "conn1"]);
}

#[test]
fn manager_connection_snapshots_can_be_used_after_connection_shards_are_locked() {
    snapshots(&mut ConnectionManager::new());
}

#[test]
fn tests_connection_snapshots_can_be_used_after_connection_shards_are_locked() {
    snapshots(&mut ConnectionManager::new());
}

fn batch_active(manager: &mut ConnectionManager<MockConnection>) {
    let old_active: u64 = 1_000;
    let now: u64 = old_active + 60_000;

    for idx in 0..3 {
        let connection_id = format!("conn{idx}");
        manager
            .add_connection_with_limit_at(connection_id, MockConnection::new(), None, false, usize::MAX, old_active)
            .unwrap();
    }

    let updated = manager.update_connections_active_at(
        &vec!["conn0".to_string(), "conn1".to_string(), "missing".to_string()],
        now,
    );

    assert_eq!(updated, 2);
    assert!(manager.get_connection("conn0").unwrap().1.last_active > old_active);
    assert!(manager.get_connection("conn1").unwrap().1.last_active > old_active);
    assert_eq!(manager.get_connection("conn2").unwrap().1.last_active, old_active);
}

#[test]
fn manager_update_connections_active_batches_successful_connection_ids() {
    batch_active(&mut ConnectionManager::new());
}

#[test]
fn tests_update_connections_active_batches_successful_connection_ids() {
    batch_active(&mut ConnectionManager::new());
}

#[test]
fn duplicate_and_unknown_ids_are_rejected() {
    let mut manager: ConnectionManager<MockConnection> = ConnectionManager::new();
    manager.add_connection("c".to_string(), MockConnection { tag: 7 }, None, false).unwrap();
    let dup = manager.add_connection("c".to_string(), MockConnection::new(), None, false).unwrap_err();
    assert_eq!(dup.code, ErrorCode::ProtocolError);
    assert_eq!(dup.message, "Connection c already exists");
    assert_eq!(manager.get_connection("c").unwrap().0.tag, 7);
    let missing = manager.remove_connection("nope").unwrap_err();
    assert_eq!(missing.message, "Connection nope not found");
    let full = manager.add_connection_with_limit("d".to_string(), MockConnection::new(), None, false, 1).unwrap_err();
    assert_eq!(full.code, ErrorCode::ConnectionFailed);
    assert_eq!(full.message, "Connection limit exceeded: 1");
}

#[test]
fn rebinding_moves_connection_between_users() {
    let mut manager: ConnectionManager<MockConnection> = ConnectionManager::new();
    manager.add_connection("c1".to_string(), MockConnection::new(), Some("alice".to_string()), false).unwrap();
    manager.bind_user("c1", "bob".to_string()).unwrap();
    assert!(manager.get_user_connections("alice").is_empty());
    assert_eq!(manager.get_user_connections("bob"), vec!["c1"]);
    assert_eq!(manager.user_count(), 1);
    let stats = manager.stats();
    assert_eq!(stats.total_connections, 1);
    assert_eq!(stats.total_users, 1);
}

#[test]
fn authentication_gates_frames() {
    let mut manager: ConnectionManager<MockConnection> = ConnectionManager::new();
    manager.add_connection("a".to_string(), MockConnection::new(), None, true).unwrap();
    manager.add_connection("b".to_string(), MockConnection::new(), None, false).unwrap();
    let data = frame_with_system_command(connect(SerializationFormat::Json, Vec::new()), Reliability::AtLeastOnce);
    let heartbeat = frame_with_system_command(ping(), Reliability::AtLeastOnce);
    assert!(!frame_allowed_before_auth(&data));
    assert!(frame_allowed_before_auth(&heartbeat));
    assert_eq!(manager.frame_recipients(&data, None), vec!["b"]);
    assert_eq!(manager.frame_recipients(&heartbeat, Some("b")), vec!["a"]);

    let (_, info) = manager.get_connection("a").unwrap();
    let refused = ensure_frame_allowed_for_connection("a", &info, &data).unwrap_err();
    assert_eq!(refused.code, ErrorCode::AuthenticationFailed);

    manager.set_connection_authenticated_at("a", Some("user".to_string()), 5_000).unwrap();
    let (_, info) = manager.get_connection("a").unwrap();
    assert!(info.is_authenticated());
    assert_eq!(info.authenticated_at, Some(5));
    assert_eq!(manager.user_frame_recipients("user", &data), vec!["a"]);
}

#[test]
fn take_connection_hands_back_the_handle() {
    let mut manager: ConnectionManager<MockConnection> = ConnectionManager::new();
    manager.add_connection("x".to_string(), MockConnection { tag: 42 }, Some("u".to_string()), false).unwrap();
    let (handle, info) = manager.take_connection("x").unwrap();
    assert_eq!(handle.tag, 42);
    assert_eq!(info.user_id.as_deref(), Some("u"));
    assert_eq!(manager.connection_count(), 0);
    assert_eq!(manager.user_count(), 0);
    assert!(manager.take_connection("x").is_none());
}

#[test]
fn negotiation_must_complete_before_confirmation() {
    let mut manager: ConnectionManager<MockConnection> = ConnectionManager::new();
    manager.add_connection("n".to_string(), MockConnection::new(), None, false).unwrap();
    let err = manager.mark_negotiation_confirmed("n").unwrap_err();
    assert_eq!(err.message, "Cannot confirm negotiation for connection n: negotiation not completed");
    let _unused: Option<Frame> = None;
}
