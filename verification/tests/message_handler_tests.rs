use flare_core::message_handler::{EnhancedMessageHandler, HandlerType};

#[test]
fn default_handler_takes_unrouted_messages() {
    let h = EnhancedMessageHandler::new("default");
    assert_eq!(*h.select_handler("c1", "Data"), "default");
}

#[test]
fn connection_handler_beats_type_handler() {
    let mut h = EnhancedMessageHandler::new("default");
    h.register_typed_handler("Data".to_string(), "typed");
    assert_eq!(*h.select_handler("c1", "Data"), "typed");
    assert_eq!(*h.select_handler("c1", "Ping"), "default");
    h.register_connection_handler("c1".to_string(), "conn");
    assert_eq!(*h.select_handler("c1", "Data"), "conn");
    assert_eq!(*h.select_handler("c1", "Ping"), "conn");
    assert_eq!(*h.select_handler("c2", "Data"), "typed");
}

#[test]
fn unregistering_reports_presence_and_restores_routing() {
    let mut h = EnhancedMessageHandler::new("default");
    h.register_connection_handler("c1".to_string(), "conn");
    h.register_connection_handler("c1".to_string(), "conn2");
    assert_eq!(*h.select_handler("c1", "Data"), "conn2");
    assert!(h.unregister_connection_handler("c1"));
    assert!(!h.unregister_connection_handler("c1"));
    assert_eq!(*h.select_handler("c1", "Data"), "default");
    h.register_typed_handler("Data".to_string(), "typed");
    assert!(h.unregister_typed_handler("Data"));
    assert!(!h.unregister_typed_handler("Data"));
    assert_eq!(*h.select_handler("c1", "Data"), "default");
}

#[test]
fn enhanced_handler_is_a_custom_handler() {
    let h = EnhancedMessageHandler::new(0u8);
    match h.get_handler_type() {
        HandlerType::Custom(name) => assert_eq!(name, "EnhancedMessageHandler"),
        other => panic!("unexpected handler type {:?}", other),
    }
}
