use flare_core::auth_handler::{AuthRequestOutcome, ServerAuthHandler};
use flare_core::auth_manager::SimpleAuthHandler;
use flare_core::device::DevicePlatform;
use flare_core::error::{ErrorCode, FlareError};
use flare_core::manager::ConnectionManager;
use flare_core::user_connections::{UserConnectionManager, DEFAULT_AUTH_TIMEOUT_MS};

fn manager() -> UserConnectionManager<u32> {
    UserConnectionManager::with_config_at(ConnectionManager::new(), 1_000, 500)
}

#[test]
fn new_manager_is_empty_with_default_timeout() {
    let m: UserConnectionManager<u32> = UserConnectionManager::new(ConnectionManager::new());
    assert_eq!(m.get_pending_auth_count(), 0);
    assert_eq!(m.get_authenticated_user_count(), 0);
    let s = m.get_stats();
    assert_eq!(s.pending_auth_connections, 0);
    assert_eq!(s.active_users, 0);
    assert_eq!(DEFAULT_AUTH_TIMEOUT_MS, 30_000);
}

#[test]
fn added_connection_waits_for_credentials() {
    let mut m = manager();
    m.add_connection_at("c1".to_string(), 1, 600).unwrap();
    assert_eq!(m.get_pending_auth_count(), 1);
    assert_eq!(m.get_stats().pending_auth_connections, 1);
    assert_eq!(m.get_stats().started_at, 500);
    let (_, info) = m.get_connection_manager().get_connection("c1").unwrap();
    assert!(!info.authenticated);
    let e = m.add_connection_at("c1".to_string(), 2, 700).unwrap_err();
    assert_eq!(e.code, ErrorCode::ProtocolError);
    assert_eq!(m.get_pending_auth_count(), 1);
}

#[test]
fn completed_authentication_binds_user_and_platform() {
    let mut m = manager();
    m.add_connection_at("c1".to_string(), 1, 600).unwrap();
    m.complete_authentication_at("c1".to_string(), "alice".to_string(), DevicePlatform::IOS, Some("dev".to_string()), 700)
        .unwrap();
    assert_eq!(m.get_pending_auth_count(), 0);
    assert_eq!(m.get_user_by_connection("c1"), Some(("alice".to_string(), DevicePlatform::IOS)));
    let infos = m.get_user_info("alice").unwrap();
    assert_eq!(infos.len(), 1);
    assert_eq!(infos[0].platform, DevicePlatform::IOS);
    assert_eq!(infos[0].device_id.as_deref(), Some("dev"));
    assert_eq!(infos[0].connected_at, 700);
    assert!(infos[0].is_authenticated);
    let s = m.get_stats();
    assert_eq!((s.pending_auth_connections, s.active_users, s.total_connections, s.active_connections, s.total_users), (0, 1, 1, 1, 1));
    let (_, info) = m.get_connection_manager().get_connection("c1").unwrap();
    assert_eq!(info.user_id.as_deref(), Some("alice"));
    assert_eq!(m.get_user_connections("alice"), vec!["c1".to_string()]);
}

#[test]
fn completing_unknown_connection_fails() {
    let mut m = manager();
    m.add_pending_connection_at("ghost".to_string(), 600).unwrap();
    let e = m.complete_authentication_at("ghost".to_string(), "bob".to_string(), DevicePlatform::Web, None, 700).unwrap_err();
    assert_eq!(e.code, ErrorCode::ConnectionFailed);
    assert_eq!(e.message, "连接不存在: ghost");
    assert_eq!(m.get_pending_auth_count(), 0);
    assert_eq!(m.get_stats().pending_auth_connections, 0);
    assert!(m.get_user_info("bob").is_none());
}

#[test]
fn removing_last_platform_drops_user() {
    let mut m = manager();
    for (id, h) in [("c1", 1), ("c2", 2)] {
        m.add_connection_at(id.to_string(), h, 600).unwrap();
    }
    m.complete_authentication_at("c1".to_string(), "alice".to_string(), DevicePlatform::IOS, None, 700).unwrap();
    m.complete_authentication_at("c2".to_string(), "alice".to_string(), DevicePlatform::Web, None, 700).unwrap();
    assert_eq!(m.get_stats().active_users, 2);
    assert_eq!(m.get_user_info("alice").unwrap().len(), 2);

    m.remove_connection("c1").unwrap();
    assert_eq!(m.get_user_info("alice").unwrap().len(), 1);
    assert!(m.get_user_by_connection("c1").is_none());
    assert_eq!(m.get_stats().active_connections, 1);

    m.remove_connection("c2").unwrap();
    assert!(m.get_user_info("alice").is_none());
    assert_eq!(m.get_stats().active_users, 1);
    assert_eq!(m.get_stats().active_connections, 0);
    assert_eq!(m.remove_connection("c2").unwrap_err().code, ErrorCode::ProtocolError);
}

#[test]
fn removing_user_connections_counts_removed() {
    let mut m = manager();
    for (id, h) in [("c1", 1), ("c2", 2), ("c3", 3)] {
        m.add_connection_at(id.to_string(), h, 600).unwrap();
    }
    m.complete_authentication_at("c1".to_string(), "alice".to_string(), DevicePlatform::IOS, None, 700).unwrap();
    m.complete_authentication_at("c2".to_string(), "alice".to_string(), DevicePlatform::Android, None, 700).unwrap();
    m.complete_authentication_at("c3".to_string(), "bob".to_string(), DevicePlatform::IOS, None, 700).unwrap();
    assert_eq!(m.remove_user_connections("alice").unwrap(), 2);
    assert!(m.get_user_info("alice").is_none());
    assert!(m.get_user_info("bob").is_some());
    assert_eq!(m.get_connection_manager().connection_count(), 1);
    assert_eq!(m.remove_user_connections("alice").unwrap(), 0);
}

#[test]
fn sweep_drops_connections_waiting_too_long() {
    let mut m = manager();
    m.add_connection_at("old".to_string(), 1, 100).unwrap();
    m.add_connection_at("fresh".to_string(), 2, 1_000).unwrap();
    m.add_pending_connection_at("unregistered".to_string(), 100).unwrap();
    assert_eq!(m.cleanup_timeout_pending_connections_at(1_500), 1);
    assert_eq!(m.get_pending_auth_count(), 2);
    assert!(m.get_connection_manager().get_connection("old").is_none());
    assert!(m.get_connection_manager().get_connection("fresh").is_some());
    assert_eq!(m.get_stats().pending_auth_connections, 2);
}

#[test]
fn disconnecting_requires_pending_connection() {
    let mut m = manager();
    m.add_connection_at("c1".to_string(), 1, 600).unwrap();
    m.disconnect_unauthenticated_connection("c1").unwrap();
    assert_eq!(m.get_pending_auth_count(), 0);
    assert_eq!(m.get_connection_manager().connection_count(), 0);
    let e = m.disconnect_unauthenticated_connection("c1").unwrap_err();
    assert_eq!(e.code, ErrorCode::ConnectionFailed);
    assert_eq!(e.message, "连接不在待验证列表中: c1");
}

#[test]
fn failed_verdict_disconnects_known_connection() {
    let mut m = manager();
    m.add_connection_at("c1".to_string(), 1, 600).unwrap();
    m.process_authentication_result_at("c1".to_string(), "alice".to_string(), "ios", false, 700).unwrap();
    assert_eq!(m.get_connection_manager().connection_count(), 0);
    assert_eq!(m.get_pending_auth_count(), 0);
    m.process_authentication_result_at("nobody".to_string(), "alice".to_string(), "ios", false, 700).unwrap();
}

#[test]
fn successful_verdict_parses_platform_name() {
    let mut m = manager();
    m.add_connection_at("c1".to_string(), 1, 600).unwrap();
    m.process_authentication_result_at("c1".to_string(), "alice".to_string(), "Android", true, 700).unwrap();
    assert_eq!(m.get_user_by_connection("c1"), Some(("alice".to_string(), DevicePlatform::Android)));
}

#[test]
fn clear_all_empties_everything() {
    let mut m = manager();
    m.add_connection_at("c1".to_string(), 1, 600).unwrap();
    m.add_connection_at("c2".to_string(), 2, 600).unwrap();
    m.complete_authentication_at("c1".to_string(), "alice".to_string(), DevicePlatform::IOS, None, 700).unwrap();
    m.clear_all();
    assert_eq!(m.get_connection_manager().connection_count(), 0);
    assert_eq!(m.get_pending_auth_count(), 0);
    assert_eq!(m.get_authenticated_user_count(), 0);
    let s = m.get_stats();
    assert_eq!((s.active_users, s.active_connections, s.pending_auth_connections), (0, 0, 0));
    assert_eq!(s.total_connections, 1);
}

fn auth_server() -> ServerAuthHandler<u32, SimpleAuthHandler> {
    let mut handler = SimpleAuthHandler::new();
    handler.add_user("secret".to_string(), "alice".to_string());
    let mut m = manager();
    m.add_connection_at("c1".to_string(), 1, 600).unwrap();
    m.add_connection_at("c2".to_string(), 2, 600).unwrap();
    ServerAuthHandler::new(m, handler)
}

#[test]
fn auth_request_with_known_token_is_accepted() {
    let mut s = auth_server();
    let r = s.handle_auth_request_at("c1".to_string(), "claimed".to_string(), "web", "secret".to_string(), 800).unwrap();
    assert!(matches!(r, AuthRequestOutcome::Accepted { ref user_id } if user_id == "alice"));
    let m = s.user_connection_manager();
    assert_eq!(m.get_user_by_connection("c1"), Some(("alice".to_string(), DevicePlatform::Web)));
    assert_eq!(m.get_pending_auth_count(), 1);
}

#[test]
fn auth_request_with_unknown_token_is_rejected_and_disconnected() {
    let mut s = auth_server();
    let r = s.handle_auth_request_at("c2".to_string(), "mallory".to_string(), "web", "guess".to_string(), 800).unwrap();
    match r {
        AuthRequestOutcome::Rejected { message, answer } => {
            assert_eq!(message, "认证失败: 无效的认证令牌");
            assert!(answer);
        },
        _ => panic!("expected a rejection"),
    }
    let m = s.user_connection_manager();
    assert!(m.get_connection_manager().get_connection("c2").is_none());
    assert_eq!(m.get_pending_auth_count(), 1);
}

#[test]
fn handler_verdicts_decide_the_outcome() {
    let mut s = auth_server();
    match s.apply_auth_verdict_at("c7".to_string(), DevicePlatform::Web, Ok("carol".to_string()), 900) {
        Err(err) => assert_eq!(err.code, ErrorCode::ConnectionFailed),
        Ok(_) => panic!("expected an error for an unknown connection"),
    }
    let r = s
        .apply_auth_verdict_at("c2".to_string(), DevicePlatform::Android, Ok("bob".to_string()), 900)
        .unwrap();
    assert!(matches!(r, AuthRequestOutcome::Accepted { ref user_id } if user_id == "bob"));
    assert_eq!(
        s.user_connection_manager().get_user_by_connection("c2"),
        Some(("bob".to_string(), DevicePlatform::Android))
    );

    let r = s
        .apply_auth_verdict_at(
            "c1".to_string(),
            DevicePlatform::Web,
            Err(FlareError::authentication_failed("expired".to_string())),
            900,
        )
        .unwrap();
    match r {
        AuthRequestOutcome::Rejected { message, answer } => {
            assert_eq!(message, "认证失败: expired");
            assert!(answer);
        },
        _ => panic!("expected a rejection"),
    }
    assert!(s.user_connection_manager().get_connection_manager().get_connection("c1").is_none());
}
