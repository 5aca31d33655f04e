use flare_core::auth::AuthStatus;
use flare_core::auth_manager::{AuthHandler, AuthManager, SimpleAuthHandler};
use flare_core::device::DevicePlatform;
use flare_core::error::ErrorCode;

fn handler_with_alice() -> SimpleAuthHandler {
    let mut h = SimpleAuthHandler::new();
    h.add_user("tok-a".to_string(), "alice".to_string());
    h.add_user("tok-b".to_string(), "bob".to_string());
    h
}

#[test]
fn simple_handler_maps_tokens_to_users() {
    let mut h = handler_with_alice();
    assert_eq!(h.authenticate(b"tok-a".to_vec()).unwrap(), "alice");
    assert_eq!(h.authenticate(b"tok-b".to_vec()).unwrap(), "bob");
    h.add_user("tok-a".to_string(), "carol".to_string());
    assert_eq!(h.authenticate(b"tok-a".to_vec()).unwrap(), "carol");
}

#[test]
fn simple_handler_refuses_unknown_token() {
    let h = handler_with_alice();
    let e = h.authenticate(b"nope".to_vec()).unwrap_err();
    assert_eq!(e.code, ErrorCode::AuthenticationExpired);
    assert_eq!(e.message, "无效的认证令牌");
}

#[test]
fn simple_handler_refuses_bytes_that_are_not_text() {
    let h = handler_with_alice();
    let e = h.authenticate(vec![0xff, 0xfe]).unwrap_err();
    assert_eq!(e.code, ErrorCode::GeneralError);
    assert!(e.message.starts_with("无效的认证令牌: "));
    assert!(e.message.len() > "无效的认证令牌: ".len());
}

#[test]
fn default_platform_aware_check_ignores_the_platform() {
    let h = handler_with_alice();
    let r = h.authenticate_with_platform(b"tok-b".to_vec(), Some(DevicePlatform::Web), None, None);
    assert_eq!(r.unwrap(), "bob");
}

#[test]
fn successful_auth_records_user_on_platform() {
    let mut m = AuthManager::new(handler_with_alice(), 30_000);
    m.add_pending_connection_at("c1".to_string(), 1_000);
    m.set_connection_platform_at("c1", DevicePlatform::IOS, Some("dev-1".to_string()), Some("1.0".to_string()), 1_500);
    let status = m.handle_auth_message_at("c1", b"tok-a".to_vec(), 2_000).unwrap();
    assert!(matches!(status, AuthStatus::Authenticated(ref u) if u == "alice"));

    let info = m.is_authenticated("c1").unwrap();
    assert!(matches!(info.status, AuthStatus::Authenticated(ref u) if u == "alice"));
    assert_eq!(info.user_id.as_deref(), Some("alice"));
    assert_eq!(info.platform, Some(DevicePlatform::IOS));
    assert_eq!(info.device_id.as_deref(), Some("dev-1"));
    assert_eq!(info.app_version.as_deref(), Some("1.0"));
    assert_eq!(info.connected_at, 1_000);
    assert_eq!(info.last_activity, 2_000);

    assert_eq!(m.get_user_connection_on_platform("alice", &DevicePlatform::IOS).as_deref(), Some("c1"));
    assert_eq!(m.get_user_connection_on_platform("alice", &DevicePlatform::Web), None);
    assert_eq!(m.get_user_online_platforms("alice"), vec![DevicePlatform::IOS]);
    assert_eq!(m.get_authenticated_user_count(), 1);
    assert_eq!(m.get_pending_count(), 1);
}

#[test]
fn auth_without_platform_is_not_recorded_online() {
    let mut m = AuthManager::new(handler_with_alice(), 30_000);
    m.add_pending_connection_at("c1".to_string(), 0);
    let status = m.handle_auth_message_at("c1", b"tok-b".to_vec(), 10).unwrap();
    assert!(matches!(status, AuthStatus::Authenticated(ref u) if u == "bob"));
    assert_eq!(m.get_authenticated_user_count(), 0);
    assert!(m.get_user_online_platforms("bob").is_empty());
}

#[test]
fn failed_auth_marks_connection_failed() {
    let mut m = AuthManager::new(handler_with_alice(), 30_000);
    m.add_pending_connection_at("c1".to_string(), 0);
    m.set_connection_platform_at("c1", DevicePlatform::Android, None, None, 5);
    let status = m.handle_auth_message_at("c1", b"wrong".to_vec(), 10).unwrap();
    assert!(matches!(status, AuthStatus::Failed));
    let info = m.is_authenticated("c1").unwrap();
    assert!(matches!(info.status, AuthStatus::Failed));
    assert_eq!(info.user_id, None);
    assert_eq!(m.get_authenticated_user_count(), 0);
}

#[test]
fn auth_for_unknown_connection_is_expired() {
    let mut m = AuthManager::new(handler_with_alice(), 30_000);
    let e = m.handle_auth_message_at("ghost", b"tok-a".to_vec(), 10).unwrap_err();
    assert_eq!(e.code, ErrorCode::AuthenticationExpired);
    assert_eq!(e.message, "连接不存在或已超时");
    assert_eq!(m.get_pending_count(), 0);
}

#[test]
fn platform_of_unknown_connection_is_ignored() {
    let mut m = AuthManager::new(handler_with_alice(), 30_000);
    m.set_connection_platform_at("ghost", DevicePlatform::Web, None, None, 5);
    assert_eq!(m.get_pending_count(), 0);
    assert!(m.is_authenticated("ghost").is_none());
}

#[test]
fn removing_connection_takes_user_offline_on_its_platform() {
    let mut m = AuthManager::new(handler_with_alice(), 30_000);
    m.add_pending_connection_at("c1".to_string(), 0);
    m.set_connection_platform_at("c1", DevicePlatform::IOS, None, None, 1);
    m.add_pending_connection_at("c2".to_string(), 0);
    m.set_connection_platform_at("c2", DevicePlatform::Web, None, None, 1);
    m.handle_auth_message_at("c1", b"tok-a".to_vec(), 2).unwrap();
    m.handle_auth_message_at("c2", b"tok-a".to_vec(), 2).unwrap();
    let mut platforms = m.get_user_online_platforms("alice");
    platforms.sort_by_key(|p| format!("{:?}", p));
    assert_eq!(platforms, vec![DevicePlatform::IOS, DevicePlatform::Web]);

    let removed = m.remove_authenticated("c1").unwrap();
    assert_eq!(removed.connection_id, "c1");
    assert_eq!(m.get_user_connection_on_platform("alice", &DevicePlatform::IOS), None);
    assert_eq!(m.get_user_connection_on_platform("alice", &DevicePlatform::Web).as_deref(), Some("c2"));
    assert_eq!(m.get_authenticated_user_count(), 1);

    m.remove_authenticated("c2").unwrap();
    assert_eq!(m.get_authenticated_user_count(), 0);
    assert!(m.remove_authenticated("c2").is_none());
    assert_eq!(m.get_pending_count(), 0);
}

#[test]
fn force_logout_keeps_user_entry() {
    let mut m = AuthManager::new(handler_with_alice(), 30_000);
    m.add_pending_connection_at("c1".to_string(), 0);
    m.set_connection_platform_at("c1", DevicePlatform::MacOS, None, None, 1);
    m.handle_auth_message_at("c1", b"tok-a".to_vec(), 2).unwrap();
    assert_eq!(m.force_logout_platform("alice", &DevicePlatform::MacOS).as_deref(), Some("c1"));
    assert_eq!(m.force_logout_platform("alice", &DevicePlatform::MacOS), None);
    assert_eq!(m.force_logout_platform("nobody", &DevicePlatform::MacOS), None);
    assert!(m.get_user_online_platforms("alice").is_empty());
    assert_eq!(m.get_authenticated_user_count(), 1);
}

#[test]
fn newer_connection_replaces_older_on_same_platform() {
    let mut m = AuthManager::new(handler_with_alice(), 30_000);
    for id in ["c1", "c2"] {
        m.add_pending_connection_at(id.to_string(), 0);
        m.set_connection_platform_at(id, DevicePlatform::Android, None, None, 1);
        m.handle_auth_message_at(id, b"tok-b".to_vec(), 2).unwrap();
    }
    assert_eq!(m.get_user_connection_on_platform("bob", &DevicePlatform::Android).as_deref(), Some("c2"));
    assert_eq!(m.get_user_online_platforms("bob"), vec![DevicePlatform::Android]);
}

#[test]
fn sweep_drops_only_inactive_connections() {
    let mut m = AuthManager::new(handler_with_alice(), 100);
    m.add_pending_connection_at("old".to_string(), 0);
    m.add_pending_connection_at("edge".to_string(), 50);
    m.add_pending_connection_at("fresh".to_string(), 140);
    assert_eq!(m.cleanup_timeout_connections_at(150), 1);
    assert!(m.is_authenticated("old").is_none());
    assert!(m.is_authenticated("edge").is_some());
    assert!(m.is_authenticated("fresh").is_some());
    assert_eq!(m.get_pending_count(), 2);
    assert_eq!(m.cleanup_timeout_connections_at(150), 0);
}

#[test]
fn clock_based_operations_register_and_keep_fresh_connections() {
    let mut m = AuthManager::new(handler_with_alice(), 60_000);
    m.add_pending_connection("c1".to_string());
    m.set_connection_platform("c1", DevicePlatform::Linux, None, None);
    let status = m.handle_auth_message("c1", b"tok-a".to_vec()).unwrap();
    assert!(matches!(status, AuthStatus::Authenticated(_)));
    assert_eq!(m.cleanup_timeout_connections(), 0);
    assert_eq!(m.get_user_connection_on_platform("alice", &DevicePlatform::Linux).as_deref(), Some("c1"));
}
