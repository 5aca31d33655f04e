use flare_core::device::DevicePlatform;
use flare_core::negotiation::{create_connect_ack, parse_connect_message, CodecRegistry};
use flare_core::protocol::{
    connect, frame_with_system_command, ping, CompressionAlgorithm, EncryptionAlgorithm, Metadata, Reliability,
    SerializationFormat, SystemCommandType,
};

fn meta(entries: &[(&str, &[u8])]) -> Metadata {
    entries.iter().map(|(k, v)| (k.to_string(), v.to_vec())).collect()
}

fn lookup<'a>(m: &'a Metadata, key: &str) -> Option<&'a [u8]> {
    m.iter().find(|(k, _)| k == key).map(|(_, v)| v.as_slice())
}

#[test]
fn parses_connect_metadata_into_negotiation_result() {
    let metadata = meta(&[
        ("compression", b"gzip"),
        ("format", b"protobuf"),
        ("encryption", b"aes256gcm"),
        ("device_id", b"device-1"),
        ("platform", b"ios"),
        ("model", b"iPhone"),
        ("app_version", b"1.2.3"),
        ("system_version", b"18.0"),
        ("user_id", b"user-1"),
        ("force_format", b"true"),
        ("trace_id", b"trace-1"),
    ]);
    let frame = frame_with_system_command(connect(SerializationFormat::Json, metadata), Reliability::AtLeastOnce);

    let result = parse_connect_message(&frame).expect("parse connect");

    assert_eq!(result.serialization_format, SerializationFormat::Protobuf);
    assert!(result.serialization_format_specified);
    assert_eq!(result.compression, CompressionAlgorithm::Gzip);
    assert_eq!(result.encryption, EncryptionAlgorithm::Aes256Gcm);
    assert!(result.is_forced);
    assert_eq!(result.user_id.as_deref(), Some("user-1"));

    let device = result.device_info.expect("device info");
    assert_eq!(device.device_id, "device-1");
    assert_eq!(device.platform, DevicePlatform::IOS);
    assert_eq!(device.model.as_deref(), Some("iPhone"));
    assert_eq!(device.app_version.as_deref(), Some("1.2.3"));
    assert_eq!(device.system_version.as_deref(), Some("18.0"));
    assert_eq!(device.metadata_get("trace_id").map(String::as_str), Some("trace-1"));
}

#[test]
fn returns_default_negotiation_for_non_connect_system_command() {
    let frame = frame_with_system_command(ping(), Reliability::BestEffort);

    let result = parse_connect_message(&frame).expect("parse non-connect");

    assert_eq!(result.serialization_format, SerializationFormat::Json);
    assert!(!result.serialization_format_specified);
    assert_eq!(result.compression, CompressionAlgorithm::Uncompressed);
    assert_eq!(result.encryption, EncryptionAlgorithm::Plaintext);
    assert!(!result.is_forced);
    assert!(result.device_info.is_none());
    assert!(result.user_id.is_none());
}

#[test]
fn parses_explicit_json_format_from_metadata() {
    let metadata = meta(&[("format", b"json")]);
    let frame = frame_with_system_command(connect(SerializationFormat::Json, metadata), Reliability::AtLeastOnce);

    let result = parse_connect_message(&frame).expect("parse connect");

    assert_eq!(result.serialization_format, SerializationFormat::Json);
    assert!(result.serialization_format_specified);
}

#[test]
fn treats_missing_format_metadata_as_unspecified() {
    let frame = frame_with_system_command(connect(SerializationFormat::Json, Vec::new()), Reliability::AtLeastOnce);

    let result = parse_connect_message(&frame).expect("parse connect");

    assert_eq!(result.serialization_format, SerializationFormat::Json);
    assert!(!result.serialization_format_specified);
}

#[test]
fn format_names_are_case_insensitive_and_unknown_ones_fall_back_to_json() {
    let frame = frame_with_system_command(
        connect(SerializationFormat::Json, meta(&[("format", b"PROTO")])),
        Reliability::AtLeastOnce,
    );
    let result = parse_connect_message(&frame).unwrap();
    assert_eq!(result.serialization_format, SerializationFormat::Protobuf);

    let frame = frame_with_system_command(
        connect(SerializationFormat::Json, meta(&[("format", b"xml")])),
        Reliability::AtLeastOnce,
    );
    let result = parse_connect_message(&frame).unwrap();
    assert_eq!(result.serialization_format, SerializationFormat::Json);
    assert!(result.serialization_format_specified);
}

#[test]
fn unknown_codecs_and_platforms_fall_back() {
    let frame = frame_with_system_command(
        connect(
            SerializationFormat::Json,
            meta(&[("compression", b"brotli"), ("encryption", b"rot13"), ("device_id", b"d"), ("platform", b"Amiga")]),
        ),
        Reliability::AtLeastOnce,
    );
    let result = parse_connect_message(&frame).unwrap();
    assert_eq!(result.compression, CompressionAlgorithm::Uncompressed);
    assert_eq!(result.encryption, EncryptionAlgorithm::Plaintext);
    assert_eq!(result.device_info.unwrap().platform, DevicePlatform::Other("Amiga".to_string()));
}

#[test]
fn device_without_platform_is_unknown_and_invalid_utf8_is_ignored() {
    let frame = frame_with_system_command(
        connect(SerializationFormat::Json, meta(&[("device_id", b"d"), ("user_id", &[0xff, 0xfe])])),
        Reliability::AtLeastOnce,
    );
    let result = parse_connect_message(&frame).unwrap();
    assert_eq!(result.device_info.unwrap().platform, DevicePlatform::Other("unknown".to_string()));
    assert!(result.user_id.is_none());
}

#[test]
fn connect_ack_confirms_registered_codecs_only() {
    let registry = CodecRegistry { compression: vec![CompressionAlgorithm::Gzip], encryption: vec![] };
    let ack = create_connect_ack(
        SerializationFormat::Protobuf,
        CompressionAlgorithm::Gzip,
        EncryptionAlgorithm::Aes256Gcm,
        Some(meta(&[("conflict", b"yes")])),
        &registry,
    );
    assert_eq!(ack.command_type, SystemCommandType::ConnectAck);
    assert_eq!(ack.serialization_format, SerializationFormat::Protobuf);
    assert_eq!(lookup(&ack.metadata, "compression"), Some(&b"gzip"[..]));
    assert_eq!(lookup(&ack.metadata, "encryption"), Some(&b"none"[..]));
    assert_eq!(lookup(&ack.metadata, "conflict"), Some(&b"yes"[..]));

    let empty = CodecRegistry { compression: vec![], encryption: vec![EncryptionAlgorithm::Aes256Gcm] };
    let ack = create_connect_ack(
        SerializationFormat::Json,
        CompressionAlgorithm::Gzip,
        EncryptionAlgorithm::Aes256Gcm,
        None,
        &empty,
    );
    assert_eq!(lookup(&ack.metadata, "compression"), Some(&b"none"[..]));
    assert_eq!(lookup(&ack.metadata, "encryption"), Some(&b"aes256gcm"[..]));
    assert_eq!(ack.metadata.len(), 2);
}
