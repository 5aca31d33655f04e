use flare_core::error::ErrorCode;
use flare_core::user_based::{UserBasedManager, DEFAULT_CLEANUP_INTERVAL_MS};

fn manager() -> UserBasedManager<u32> {
    UserBasedManager::new_at(1_000)
}

#[test]
fn new_manager_is_empty() {
    let m = manager();
    assert_eq!(m.get_user_count(), 0);
    assert_eq!(m.get_connection_count(), 0);
    assert_eq!(m.get_stats().started_at, 1_000);
    assert_eq!(DEFAULT_CLEANUP_INTERVAL_MS, 30_000);
    assert!(!m.should_cleanup_at(31_000));
    assert!(m.should_cleanup_at(31_001));
}

#[test]
fn connections_group_under_their_user() {
    let mut m = manager();
    m.add_user_connection_at("alice".to_string(), "c1".to_string(), 1, 1_100).unwrap();
    m.add_user_connection_at("alice".to_string(), "c2".to_string(), 2, 1_200).unwrap();
    m.add_user_connection_at("bob".to_string(), "c3".to_string(), 3, 1_300).unwrap();
    assert_eq!(m.get_user_connections("alice"), vec!["c1".to_string(), "c2".to_string()]);
    assert_eq!(m.get_user_id_by_connection("c3").as_deref(), Some("bob"));
    assert_eq!(m.get_connection("c2"), Some(&2));
    assert_eq!(m.get_user_count(), 2);
    assert_eq!(m.get_connection_count(), 3);
    assert_eq!(m.get_all_connections(), vec!["c1".to_string(), "c2".to_string(), "c3".to_string()]);
    let mut users = m.get_all_users();
    users.sort();
    assert_eq!(users, vec!["alice".to_string(), "bob".to_string()]);
    let s = m.get_stats();
    assert_eq!((s.total_users, s.active_users, s.total_connections, s.active_connections), (2, 2, 3, 3));
    assert!(m.get_user_connections("nobody").is_empty());
}

#[test]
fn removing_last_connection_drops_user() {
    let mut m = manager();
    m.add_user_connection_at("alice".to_string(), "c1".to_string(), 1, 1_100).unwrap();
    m.add_user_connection_at("alice".to_string(), "c2".to_string(), 2, 1_200).unwrap();
    m.remove_connection_at("c1", 1_500).unwrap();
    assert_eq!(m.get_user_connections("alice"), vec!["c2".to_string()]);
    assert!(m.get_user_id_by_connection("c1").is_none());
    assert_eq!(m.get_stats().active_connections, 1);
    m.remove_connection_at("c2", 1_600).unwrap();
    assert_eq!(m.get_user_count(), 0);
    assert_eq!(m.get_stats().active_users, 0);
    assert_eq!(m.get_stats().total_users, 1);
    m.remove_connection_at("c2", 1_700).unwrap();
    assert_eq!(m.get_stats().active_connections, 0);
}

#[test]
fn sending_to_unknown_connection_fails() {
    let mut m = manager();
    m.add_user_connection_at("alice".to_string(), "c1".to_string(), 7, 1_100).unwrap();
    assert_eq!(m.connection_for_send("c1").ok(), Some(&7));
    let e = m.connection_for_send("ghost").unwrap_err();
    assert_eq!(e.code, ErrorCode::ConnectionFailed);
    assert_eq!(e.message, "连接不存在: ghost");
    m.record_messages_sent(3);
    assert_eq!(m.get_stats().total_messages, 3);
}

#[test]
fn sweep_removes_connections_reported_idle() {
    let mut m = manager();
    m.add_user_connection_at("alice".to_string(), "c1".to_string(), 1, 1_100).unwrap();
    m.add_user_connection_at("alice".to_string(), "c2".to_string(), 2, 1_100).unwrap();
    m.add_user_connection_at("bob".to_string(), "c3".to_string(), 3, 1_100).unwrap();
    let reported = vec![("c1".to_string(), 100), ("c2".to_string(), 9_500), ("c3".to_string(), 200), ("gone".to_string(), 0)];
    assert_eq!(m.cleanup_inactive_connections_at(1_000, 10_000, &reported), 2);
    assert_eq!(m.get_all_connections(), vec!["c2".to_string()]);
    assert_eq!(m.get_user_connections("alice"), vec!["c2".to_string()]);
    assert!(m.get_user_connections("bob").is_empty());
    assert_eq!(m.get_user_count(), 1);
    let s = m.get_stats();
    assert_eq!((s.active_users, s.active_connections), (1, 1));
    assert!(!m.should_cleanup_at(10_000 + DEFAULT_CLEANUP_INTERVAL_MS));
    assert_eq!(m.cleanup_inactive_connections_at(1_000, 10_000, &reported), 0);
}

#[test]
fn clear_all_keeps_totals() {
    let mut m = manager().with_cleanup_interval(5);
    m.add_user_connection_at("alice".to_string(), "c1".to_string(), 1, 1_100).unwrap();
    m.clear_all();
    assert_eq!(m.get_connection_count(), 0);
    assert_eq!(m.get_user_count(), 0);
    let s = m.get_stats();
    assert_eq!((s.active_users, s.active_connections, s.total_users, s.total_connections), (0, 0, 1, 1));
    assert!(m.should_cleanup_at(1_006));
}
