use flare_core::auth_connections::AuthenticatedConnectionManager;
use flare_core::error::{ErrorCode, FlareError};
use flare_core::session::DefaultAuthProvider;

#[test]
fn connections_authenticate_through_the_provider() {
    let mut provider = DefaultAuthProvider::new(60_000);
    let token = flare_core::session::AuthProvider::generate_token(&mut provider, "alice").unwrap();
    let mut m = AuthenticatedConnectionManager::new(provider, 1_000);
    assert!(m.add_connection_at("c1".to_string(), 11, 100));
    assert!(m.add_connection_at("c2".to_string(), 12, 100));
    assert!(!m.add_connection_at("c2".to_string(), 13, 100));
    assert_eq!(m.connection_count(), 2);
    assert_eq!(m.get_connection("c2"), Some(13));

    assert!(!m.is_connection_authenticated("c1"));
    assert_eq!(m.authenticate_connection("c1", &token).unwrap(), "alice");
    assert!(m.is_connection_authenticated("c1"));
    assert_eq!(m.get_connection_user_id("c1").as_deref(), Some("alice"));

    let bad = m.authenticate_connection("c2", "forged").unwrap_err();
    assert_eq!(bad.code, ErrorCode::AuthenticationFailed);
    assert!(m.authenticate_connection("nope", &token).is_err());

    assert_eq!(m.broadcast_targets(), vec![11]);
    let mut ids = m.all_connection_ids();
    ids.sort();
    assert_eq!(ids, vec!["c1", "c2"]);
}

#[test]
fn unauthenticated_connections_expire() {
    let mut m = AuthenticatedConnectionManager::new(DefaultAuthProvider::new(1), 500);
    m.add_connection_at("a".to_string(), 1, 0);
    m.add_connection_at("b".to_string(), 2, 400);
    assert!(m.cleanup_unauthenticated_connections_at(500).is_empty());
    assert_eq!(m.cleanup_unauthenticated_connections_at(501), vec![1]);
    assert_eq!(m.connection_count(), 1);
    assert_eq!(m.remove_connection("b"), Some(2));
    assert_eq!(m.remove_connection("b"), None);
}

#[test]
fn token_verdicts_are_applied_to_the_table() {
    let provider = DefaultAuthProvider::new(60_000);
    let mut m = AuthenticatedConnectionManager::new(provider, 1_000);
    assert!(m.add_connection_at("c1".to_string(), 11, 100));

    let refused = m.apply_token_verdict("c1", Err(FlareError::authentication_failed("no".to_string())));
    let e = refused.unwrap_err();
    assert_eq!(e.code, ErrorCode::AuthenticationFailed);
    assert_eq!(e.message, "no");
    assert!(!m.is_connection_authenticated("c1"));

    let unknown = m.apply_token_verdict("c9", Ok("bob".to_string())).unwrap_err();
    assert_eq!(unknown.code, ErrorCode::AuthenticationFailed);
    assert_eq!(m.connection_count(), 1);

    assert_eq!(m.apply_token_verdict("c1", Ok("bob".to_string())).unwrap(), "bob");
    assert!(m.is_connection_authenticated("c1"));
    assert_eq!(m.get_connection_user_id("c1").as_deref(), Some("bob"));
}
