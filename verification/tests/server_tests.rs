use flare_core::auth::{AuthResult, AuthState, AuthenticatedConnection, DefaultAuthenticator};
use flare_core::builder::{create_message_parser, validate_auth_config, BaseServerBuilderConfig, MessageParser, ServerBuilder};
use flare_core::config::{HeartbeatConfig, ServerConfig};
use flare_core::connection::ConnectionInfo;
use flare_core::device::DeviceConflictStrategy;
use flare_core::error::{ErrorCode, FlareError};
use flare_core::fanout::fanout_outcome;
use flare_core::heartbeat::{timeout_cleanup_log_sample, HeartbeatDetector};
use flare_core::manager::ConnectionManager;
use flare_core::protocol::{
    frame_with_system_command, ping, CommandKind, CompressionAlgorithm, EncryptionAlgorithm, Reliability,
    SerializationFormat, SystemCommandType, TransportProtocol,
};
use flare_core::protocol::{
    connect, Command, CustomCommand, Frame, NotificationCommand, PayloadCommand, PayloadType,
};
use flare_core::wrapper::{
    frame_dispatch, ping_reply, response_for, response_parser, FrameDispatch, FrameStep, PayloadRoute,
    ServerMessageWrapper, SystemCommandStep,
};

#[test]
fn auth_requires_an_authenticator() {
    let config = ServerConfig::default().enable_auth();
    let err = validate_auth_config::<u8>(&config, &None).unwrap_err();
    assert_eq!(err.code, ErrorCode::ConfigurationError);
    assert!(validate_auth_config(&config, &Some(1u8)).is_ok());
    assert!(validate_auth_config::<u8>(&ServerConfig::default(), &None).is_ok());
}

#[test]
fn base_builder_collects_configuration() {
    let b: BaseServerBuilderConfig<u8> = BaseServerBuilderConfig::new("127.0.0.1:9000".to_string())
        .enable_auth()
        .with_auth_timeout(1_500)
        .with_protocol(TransportProtocol::QUIC)
        .with_max_connections(7)
        .with_connection_timeout(9_000)
        .with_heartbeat(HeartbeatConfig { check_interval: 1, connection_timeout: 2, enable_auto_cleanup: false })
        .with_default_format(SerializationFormat::Json)
        .with_default_compression(CompressionAlgorithm::Gzip)
        .with_default_encryption(EncryptionAlgorithm::Aes256Gcm)
        .with_device_conflict_strategy(DeviceConflictStrategy::SingleDevice)
        .with_protocol_address(TransportProtocol::TCP, "tcp://0.0.0.0:1".to_string());
    assert!(b.validate().is_err());
    let b = b.with_authenticator(3);
    assert!(b.validate().is_ok());
    assert_eq!(b.config.bind_address, "127.0.0.1:9000");
    assert!(b.config.auth_enabled);
    assert_eq!(b.config.auth_timeout, 1_500);
    assert_eq!(b.config.transport, TransportProtocol::QUIC);
    assert_eq!(b.config.max_connections, 7);
    assert_eq!(b.config.connection_timeout, 9_000);
    assert_eq!(b.config.default_heartbeat.check_interval, 1);
    assert_eq!(b.config.device_conflict_strategy, DeviceConflictStrategy::SingleDevice);
    assert_eq!(b.config.get_protocol_address(&TransportProtocol::TCP), "0.0.0.0:1");
    let parser = create_message_parser(&b.config);
    assert_eq!(
        parser,
        MessageParser::new(SerializationFormat::Json, CompressionAlgorithm::Gzip, EncryptionAlgorithm::Aes256Gcm)
    );
}

#[test]
fn simple_builder_records_callbacks() {
    let b: ServerBuilder<u8, &str, &str, &str> = ServerBuilder::new("0.0.0.0:1".to_string())
        .on_message("m")
        .on_connect("c")
        .on_disconnect("d")
        .with_protocols(vec![TransportProtocol::TCP])
        .with_max_connections(3)
        .with_default_format(SerializationFormat::Json);
    assert_eq!(b.message_handler, Some("m"));
    assert_eq!(b.on_connect, Some("c"));
    assert_eq!(b.on_disconnect, Some("d"));
    assert_eq!(b.base.config.transports, Some(vec![TransportProtocol::TCP]));
    assert_eq!(b.base.config.max_connections, 3);
}

#[test]
fn auth_results_and_default_authenticator() {
    let ok = AuthResult::success(Some("u".to_string()));
    assert!(ok.authenticated && ok.error_message.is_none());
    let meta = AuthResult::success_with_metadata(None, vec![("role".to_string(), "admin".to_string())]);
    assert_eq!(meta.user_metadata.unwrap()[0].1, "admin");
    let bad = AuthResult::failure("nope".to_string());
    assert!(!bad.authenticated);
    assert_eq!(bad.error_message.as_deref(), Some("nope"));
    let any = DefaultAuthenticator.authenticate("whatever", "c1");
    assert!(any.authenticated && any.user_id.is_none());
}

#[test]
fn authenticated_connection_deadline() {
    let mut c = AuthenticatedConnection::new_at("handle", 500, 1_000);
    assert_eq!(c.auth_state, AuthState::Pending);
    assert!(!c.is_auth_timeout_at(1_500));
    assert!(c.is_auth_timeout_at(1_501));
    c.set_auth_state(AuthState::Authenticating);
    assert_eq!(c.auth_state, AuthState::Authenticating);
    c.set_user_id("u".to_string());
    assert_eq!(c.auth_state, AuthState::Authenticated);
    assert_eq!(c.user_id.as_deref(), Some("u"));
}

#[test]
fn fanout_outcome_counts_failures() {
    assert_eq!(fanout_outcome(5, 3), (3, 2));
    assert_eq!(fanout_outcome(0, 0), (0, 0));
}

#[test]
fn grouped_fanout_plan_groups_by_encoding() {
    let mut m: ConnectionManager<u8> = ConnectionManager::new();
    for (id, auth) in [("a", false), ("b", false), ("c", false), ("p", true)] {
        m.add_connection(id.to_string(), 0, None, auth).unwrap();
    }
    let frame = frame_with_system_command(
        flare_core::protocol::connect(SerializationFormat::Json, Vec::new()),
        Reliability::AtLeastOnce,
    );
    let ids = vec!["a".to_string(), "p".to_string(), "b".to_string(), "zz".to_string(), "c".to_string()];
    let plan = m.plan_grouped_fanout(&ids, &frame);
    assert_eq!(plan.total, 4);
    assert_eq!(plan.refused, vec!["p"]);
    assert!(plan.encrypted.is_empty());
    assert_eq!(plan.groups.len(), 1);
    assert_eq!(plan.groups[0].connection_ids, vec!["a", "b", "c"]);
    assert_eq!(plan.groups[0].parser.encryption, EncryptionAlgorithm::Plaintext);
}

#[test]
fn heartbeat_sample_and_stopped_detector() {
    let ids: Vec<String> = (0..12).map(|idx| format!("conn-{idx}")).collect();
    let (sample, omitted) = timeout_cleanup_log_sample(&ids, 5);
    assert_eq!(sample, vec!["conn-0", "conn-1", "conn-2", "conn-3", "conn-4"]);
    assert_eq!(omitted, 7);
    let (all, none) = timeout_cleanup_log_sample(&ids[..2].to_vec(), 8);
    assert_eq!(all.len(), 2);
    assert_eq!(none, 0);
}

#[test]
fn timeout_cleanup_log_sample_limits_connection_ids() {
    let connection_ids = (0..12).map(|idx| format!("conn-{idx}")).collect::<Vec<_>>();

    let (sample, omitted) = timeout_cleanup_log_sample(&connection_ids, 5);

    assert_eq!(sample, vec!["conn-0", "conn-1", "conn-2", "conn-3", "conn-4"]);
    assert_eq!(omitted, 7);
}

#[test]
fn stop_prevents_future_timeout_cleanup_checks() {
    let mut manager: ConnectionManager<u8> = ConnectionManager::new();
    manager
        .add_connection_with_limit_at("stays-connected".to_string(), 0, None, false, usize::MAX, 0)
        .expect("test connection should be added");
    let mut detector = HeartbeatDetector::new(20, 10);
    detector.start();
    detector.stop();
    assert!(detector.check_at(&mut manager, 70).is_none());
    assert_eq!(manager.connection_count(), 1, "stopped detector should not continue cleaning timeout connections");
    detector.start();
    assert_eq!(detector.check_at(&mut manager, 70), Some(vec!["stays-connected".to_string()]));
}

#[test]
fn system_commands_update_connection_state() {
    let mut m: ConnectionManager<u8> = ConnectionManager::new();
    m.add_connection_with_limit_at("c".to_string(), 0, None, false, usize::MAX, 1).unwrap();
    let parser = MessageParser::new(SerializationFormat::Protobuf, CompressionAlgorithm::Uncompressed, EncryptionAlgorithm::Plaintext);
    let mut w: ServerMessageWrapper<(), u8> = ServerMessageWrapper::new((), Some(m), None, parser);
    assert!(matches!(w.handle_system_command_at(SystemCommandType::Ping, "c", 50), SystemCommandStep::ReplyToPing));
    assert!(matches!(w.handle_system_command_at(SystemCommandType::Kicked, "c", 60), SystemCommandStep::Unhandled));
    match w.handle_system_command_at(SystemCommandType::NegotiationReady, "c", 70) {
        SystemCommandStep::NegotiationConfirmed(r) => assert!(r.is_err()),
        _ => panic!("expected a confirmation step"),
    }
    let target = w.response_target("c").unwrap();
    assert_eq!(target.format, SerializationFormat::Json);
    assert!(w.response_target("missing").is_none());
    assert_eq!(w.parser(), parser);
}

#[test]
fn responses_default_to_pong_and_acknowledgements() {
    let pong = ping_reply(None);
    match pong.command.unwrap().kind.unwrap() {
        CommandKind::System(c) => assert_eq!(c.command_type, SystemCommandType::Pong),
        _ => panic!("expected PONG"),
    }
    let custom = frame_with_system_command(ping(), Reliability::BestEffort);
    assert_eq!(ping_reply(Some(custom)).reliability, Reliability::BestEffort);

    let ack = response_for("m1".to_string(), Ok(None));
    assert_eq!(ack.message_id, "m1");
    let err = response_for("m2".to_string(), Err(FlareError::general_error("boom".to_string())));
    match err.command.unwrap().kind.unwrap() {
        CommandKind::Payload(p) => {
            assert_eq!(p.message_id, "m2");
            assert!(p.metadata.contains(&("error".to_string(), b"true".to_vec())));
            assert!(p.metadata.contains(&("error_message".to_string(), b"boom".to_vec())));
        },
        _ => panic!("expected an acknowledgement"),
    }
}

#[test]
fn negotiated_connections_get_their_own_encoding() {
    let info = ConnectionInfo::new_at("c".to_string(), false, 0);
    let p = response_parser(&info);
    assert_eq!(p.format, SerializationFormat::Json);
    assert_eq!(p.compression, CompressionAlgorithm::Uncompressed);
}

fn frame_of(kind: Option<CommandKind>) -> Frame {
    Frame {
        message_id: "m".to_string(),
        command: Some(Command { kind }),
        metadata: Vec::new(),
        reliability: Reliability::AtLeastOnce,
        timestamp: 0,
    }
}

fn payload_frame(t: PayloadType) -> Frame {
    frame_of(Some(CommandKind::Payload(PayloadCommand {
        payload_type: t,
        message_id: "p".to_string(),
        payload: b"hi".to_vec(),
        metadata: Vec::new(),
    })))
}

#[test]
fn frames_are_dispatched_by_command_kind() {
    let none = Frame {
        message_id: String::new(),
        command: None,
        metadata: Vec::new(),
        reliability: Reliability::BestEffort,
        timestamp: 0,
    };
    assert_eq!(frame_dispatch(&none), FrameDispatch::Ignore);
    assert_eq!(frame_dispatch(&frame_of(None)), FrameDispatch::Ignore);
    let c = frame_with_system_command(connect(SerializationFormat::Json, Vec::new()), Reliability::AtLeastOnce);
    assert_eq!(frame_dispatch(&c), FrameDispatch::Ignore);
    let p = frame_with_system_command(ping(), Reliability::AtLeastOnce);
    assert_eq!(frame_dispatch(&p), FrameDispatch::System(SystemCommandType::Ping));
    assert_eq!(frame_dispatch(&payload_frame(PayloadType::Message)), FrameDispatch::Payload(PayloadRoute::Message));
    assert_eq!(frame_dispatch(&payload_frame(PayloadType::Event)), FrameDispatch::Payload(PayloadRoute::Event));
    assert_eq!(frame_dispatch(&payload_frame(PayloadType::Ack)), FrameDispatch::Payload(PayloadRoute::Ack));
    assert_eq!(frame_dispatch(&payload_frame(PayloadType::Data)), FrameDispatch::Payload(PayloadRoute::Data));
    assert_eq!(frame_dispatch(&payload_frame(PayloadType::Unspecified)), FrameDispatch::UnspecifiedPayload);
    assert_eq!(frame_dispatch(&payload_frame(PayloadType::Unrecognized(42))), FrameDispatch::UnknownPayload);
    let n = frame_of(Some(CommandKind::Notification(NotificationCommand { payload: Vec::new(), metadata: Vec::new() })));
    assert_eq!(frame_dispatch(&n), FrameDispatch::Notification);
    let k = frame_of(Some(CommandKind::Custom(CustomCommand {
        name: "x".to_string(),
        payload: Vec::new(),
        metadata: Vec::new(),
    })));
    assert_eq!(frame_dispatch(&k), FrameDispatch::Custom);
}

#[test]
fn inbound_frames_give_their_steps() {
    let mut m: ConnectionManager<u8> = ConnectionManager::new();
    m.add_connection_with_limit_at("c".to_string(), 0, None, false, usize::MAX, 1).unwrap();
    let parser = MessageParser::new(SerializationFormat::Json, CompressionAlgorithm::Uncompressed, EncryptionAlgorithm::Plaintext);
    let mut w: ServerMessageWrapper<(), u8> = ServerMessageWrapper::new((), Some(m), None, parser);
    let p = frame_with_system_command(ping(), Reliability::AtLeastOnce);
    assert!(matches!(w.handle_frame_at(&p, "c", 10), FrameStep::System(SystemCommandStep::ReplyToPing)));
    let c = frame_with_system_command(connect(SerializationFormat::Json, Vec::new()), Reliability::AtLeastOnce);
    assert!(matches!(w.handle_frame_at(&c, "c", 11), FrameStep::Ignore));
    assert!(matches!(w.handle_frame_at(&payload_frame(PayloadType::Data), "c", 12), FrameStep::Payload(PayloadRoute::Data)));
    assert!(matches!(w.handle_frame_at(&payload_frame(PayloadType::Unspecified), "c", 13), FrameStep::UnspecifiedPayload));
    assert!(matches!(w.handle_frame_at(&payload_frame(PayloadType::Unrecognized(9)), "c", 14), FrameStep::UnknownPayload));
    let k = frame_of(Some(CommandKind::Custom(CustomCommand {
        name: "x".to_string(),
        payload: Vec::new(),
        metadata: Vec::new(),
    })));
    assert!(matches!(w.handle_frame_at(&k, "c", 15), FrameStep::Custom));
    assert!(matches!(w.handle_frame_at(&k, "unknown", 16), FrameStep::Custom));
}
