use flare_core::error::ErrorCode;
use flare_core::session::{AuthProvider, DefaultAuthProvider, SessionManager, UserSession, DEFAULT_SESSION_EXPIRES_MS};

#[test]
fn session_expiry_and_remaining_time() {
    let s = UserSession::new_at("u".to_string(), "t".to_string(), 1_000, 10_000);
    assert!(!s.is_expired_at(10_000));
    assert!(!s.is_expired_at(11_000));
    assert!(s.is_expired_at(11_001));
    assert_eq!(s.remaining_time_at(10_250), 750);
    assert_eq!(s.remaining_time_at(11_000), 0);
    assert_eq!(s.remaining_time_at(99_999), 0);
}

#[test]
fn expiry_does_not_overflow_near_the_end_of_time() {
    let s = UserSession::new_at("u".to_string(), "t".to_string(), u64::MAX, u64::MAX - 5);
    assert!(!s.is_expired_at(u64::MAX));
}

#[test]
fn activity_updates_only_last_activity() {
    let mut s = UserSession::new_at("u".to_string(), "t".to_string(), 1_000, 10);
    s.update_activity_at(500);
    assert_eq!(s.last_activity, 500);
    assert_eq!(s.created_at, 10);
}

#[test]
fn created_session_validates_until_it_expires() {
    let mut m = SessionManager::new(1_000);
    let s = m.create_session_at("alice".to_string(), "tok".to_string(), None, 100).unwrap();
    assert_eq!(s.expires_in, 1_000);
    assert_eq!(m.validate_session_at("tok", 1_100).unwrap(), "alice");
    assert_eq!(m.get_user_tokens("alice"), vec!["tok"]);
    let err = m.validate_session_at("tok", 1_101).unwrap_err();
    assert_eq!(err.code, ErrorCode::AuthenticationFailed);
    assert!(m.get_user_tokens("alice").is_empty());
    assert!(m.validate_session_at("tok", 0).is_err());
}

#[test]
fn removed_session_is_refused() {
    let mut m = SessionManager::new(10_000);
    m.create_session_at("bob".to_string(), "t1".to_string(), None, 0).unwrap();
    m.create_session_at("bob".to_string(), "t2".to_string(), Some(5), 0).unwrap();
    assert_eq!(m.get_user_tokens("bob"), vec!["t1", "t2"]);
    m.remove_session("t1");
    assert!(m.validate_session_at("t1", 1).is_err());
    assert_eq!(m.get_user_tokens("bob"), vec!["t2"]);
    assert_eq!(m.validate_session_at("t2", 5).unwrap(), "bob");
}

#[test]
fn cleanup_removes_exactly_the_expired_sessions() {
    let mut m = SessionManager::new(100);
    m.create_session_at("a".to_string(), "short".to_string(), Some(10), 0).unwrap();
    m.create_session_at("a".to_string(), "long".to_string(), Some(1_000), 0).unwrap();
    m.create_session_at("b".to_string(), "mid".to_string(), None, 0).unwrap();
    assert_eq!(m.cleanup_expired_sessions_at(101), 2);
    assert_eq!(m.get_user_tokens("a"), vec!["long"]);
    assert!(m.get_user_tokens("b").is_empty());
    assert_eq!(m.validate_session_at("long", 200).unwrap(), "a");
    assert_eq!(m.cleanup_expired_sessions_at(200), 0);
}

#[test]
fn default_provider_issues_and_checks_tokens() {
    let mut p = DefaultAuthProvider::new(60_000);
    let token = p.generate_token_at("carol", 1_700_000_000_000).unwrap();
    assert_eq!(token, "token_carol_1700000000000");
    assert_eq!(p.validate_token_at(&token, 1_700_000_030_000).unwrap(), "carol");
    assert!(p.validate_token_at("token_nobody_1", 0).is_err());
    assert_eq!(p.session_manager().get_user_tokens("carol"), vec![token.clone()]);
    let fresh = p.generate_token("dave").unwrap();
    assert!(fresh.starts_with("token_dave_"));
    assert_eq!(p.validate_token(&fresh).unwrap(), "dave");
}

#[test]
fn default_provider_sessions_last_a_day() {
    let p = DefaultAuthProvider::default();
    assert_eq!(p.session_manager().default_expires_in(), DEFAULT_SESSION_EXPIRES_MS);
    assert_eq!(DEFAULT_SESSION_EXPIRES_MS, 24 * 60 * 60 * 1000);
}
