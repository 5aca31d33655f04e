use flare_core::config::HeartbeatConfig;
use flare_core::heartbeat_manager::{reported_idle_in, HeartbeatManager};

fn config(auto: bool) -> HeartbeatConfig {
    HeartbeatConfig { check_interval: 10_000, connection_timeout: 30_000, enable_auto_cleanup: auto }
}

#[test]
fn watched_connections_can_be_found_and_removed() {
    let mut m = HeartbeatManager::new_at(config(true), 0);
    m.add_connection("c1".to_string(), 'a');
    m.add_connection("c2".to_string(), 'b');
    m.add_connection("c1".to_string(), 'c');
    assert_eq!(m.get_connection("c1"), Some(&'c'));
    assert_eq!(m.get_all_connections(), vec!["c1".to_string(), "c2".to_string()]);
    assert!(m.remove_connection("c1"));
    assert!(!m.remove_connection("c1"));
    assert_eq!(m.get_connection("c1"), None);
}

#[test]
fn check_hands_back_silent_connections() {
    let mut m = HeartbeatManager::new_at(config(true), 0);
    m.add_connection("c1".to_string(), 1u8);
    m.add_connection("c2".to_string(), 2u8);
    m.add_connection("c3".to_string(), 3u8);
    let reported = vec![("c1".to_string(), 10_000), ("c2".to_string(), 60_000), ("c3".to_string(), 29_999)];
    let expired = m.check_heartbeat_at(60_000, &reported);
    assert_eq!(expired, vec![("c1".to_string(), 1u8), ("c3".to_string(), 3u8)]);
    assert_eq!(m.get_all_connections(), vec!["c2".to_string()]);
    let s = m.get_stats();
    assert_eq!((s.total_connections, s.last_check_time, s.next_check_time), (1, 60_000, 70_000));
}

#[test]
fn check_without_auto_cleanup_does_nothing() {
    let mut m = HeartbeatManager::new_at(config(false), 5);
    m.add_connection("c1".to_string(), 1u8);
    let expired = m.check_heartbeat_at(1_000_000, &vec![("c1".to_string(), 0)]);
    assert!(expired.is_empty());
    assert_eq!(m.get_stats().last_check_time, 5);
    assert_eq!(m.get_stats().total_connections, 1);
}

#[test]
fn idle_report_needs_more_than_the_timeout() {
    let reported = vec![("c1".to_string(), 100)];
    assert!(!reported_idle_in(&reported, "c1", 50, 150));
    assert!(reported_idle_in(&reported, "c1", 50, 151));
    assert!(!reported_idle_in(&reported, "c2", 50, 1_000));
}
