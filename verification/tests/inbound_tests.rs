use flare_core::builder::MessageParser;
use flare_core::connection::ConnectionInfo;
use flare_core::error::FlareError;
use flare_core::inbound::{
    begin_inbound_at, finish_connect, inbound_mode, is_connect_message, is_negotiation_ready_message, negotiated_step,
    pre_negotiation_step, InboundMode, NegotiatedStep, PreNegotiationStep,
};
use flare_core::manager::ConnectionManager;
use flare_core::negotiation::CodecRegistry;
use flare_core::protocol::{
    connect, frame_with_system_command, ping, CompressionAlgorithm, EncryptionAlgorithm, Reliability, SerializationFormat,
    SystemCommand, SystemCommandType,
};

fn system(t: SystemCommandType) -> flare_core::protocol::Frame {
    frame_with_system_command(
        SystemCommand { command_type: t, serialization_format: SerializationFormat::Json, metadata: Vec::new() },
        Reliability::AtLeastOnce,
    )
}

#[test]
fn command_predicates_look_at_the_system_command() {
    let c = frame_with_system_command(connect(SerializationFormat::Json, Vec::new()), Reliability::AtLeastOnce);
    assert!(is_connect_message(&c));
    assert!(!is_negotiation_ready_message(&c));
    let r = system(SystemCommandType::NegotiationReady);
    assert!(is_negotiation_ready_message(&r));
    assert!(!is_connect_message(&frame_with_system_command(ping(), Reliability::AtLeastOnce)));
}

#[test]
fn unknown_or_unnegotiated_connections_use_the_pre_negotiation_parser() {
    assert_eq!(inbound_mode(&None), InboundMode::PreNegotiation);
    let info = ConnectionInfo::new_at("c1".to_string(), true, 10);
    assert_eq!(inbound_mode(&Some(info)), InboundMode::PreNegotiation);
}

#[test]
fn negotiated_connections_fall_back_until_confirmed() {
    let mut info = ConnectionInfo::new_at("c1".to_string(), true, 10);
    info.negotiation_completed = true;
    info.serialization_format = SerializationFormat::Protobuf;
    info.compression = CompressionAlgorithm::Gzip;
    let parser = MessageParser::new(SerializationFormat::Protobuf, CompressionAlgorithm::Gzip, EncryptionAlgorithm::Plaintext);
    assert_eq!(inbound_mode(&Some(info.clone())), InboundMode::Negotiated { parser, allow_fallback: true });
    info.negotiation_confirmed = true;
    assert_eq!(inbound_mode(&Some(info)), InboundMode::Negotiated { parser, allow_fallback: false });
}

#[test]
fn negotiation_ready_confirms_and_missing_encryptor_drops() {
    let registry = CodecRegistry { compression: vec![], encryption: vec![] };
    let parser = MessageParser::new(SerializationFormat::Json, CompressionAlgorithm::Uncompressed, EncryptionAlgorithm::Aes256Gcm);
    let ready = system(SystemCommandType::NegotiationReady);
    assert_eq!(negotiated_step(Some(&ready), parser, true, &registry), NegotiatedStep::ConfirmNegotiation);
    assert_eq!(negotiated_step(None, parser, true, &registry), NegotiatedStep::MissingEncryptor);
    let with_aes = CodecRegistry { compression: vec![], encryption: vec![EncryptionAlgorithm::Aes256Gcm] };
    assert_eq!(
        negotiated_step(Some(&system(SystemCommandType::Ping)), parser, false, &with_aes),
        NegotiatedStep::Parse { parser, allow_fallback: false }
    );
}

#[test]
fn pre_negotiation_data_starts_negotiation_or_is_dispatched() {
    let c = frame_with_system_command(connect(SerializationFormat::Json, Vec::new()), Reliability::AtLeastOnce);
    assert_eq!(pre_negotiation_step(Some(&c)), PreNegotiationStep::Connect);
    assert_eq!(pre_negotiation_step(Some(&system(SystemCommandType::Ping))), PreNegotiationStep::Dispatch);
    assert_eq!(pre_negotiation_step(None), PreNegotiationStep::Drop);
}

#[test]
fn inbound_data_records_activity_and_failed_connect_removes() {
    let mut m: ConnectionManager<u8> = ConnectionManager::new();
    m.add_connection("c1".to_string(), 1, None, true).unwrap();
    assert_eq!(begin_inbound_at(&mut m, "c1", 99_999), InboundMode::PreNegotiation);
    assert_eq!(m.get_connection("c1").unwrap().1.last_active, 99_999);
    assert_eq!(begin_inbound_at(&mut m, "ghost", 5), InboundMode::PreNegotiation);
    assert!(!finish_connect(&mut m, "c1", &Ok(())));
    assert!(finish_connect(&mut m, "c1", &Err(FlareError::general_error("bad".to_string()))));
    assert!(m.get_connection("c1").is_none());
}
