use flare_core::config::{HeartbeatConfig, ServerConfig, TlsConfig};
use flare_core::protocol::{CompressionAlgorithm, EncryptionAlgorithm, SerializationFormat, TransportProtocol};
use flare_core::device::DeviceConflictStrategy;

#[test]
fn default_connection_admission_limits_are_enabled() {
    let config = ServerConfig::default();

    assert_eq!(config.handshake_timeout, 10_000);
    assert_eq!(config.max_handshake_concurrency, 1024);
    assert_eq!(config.write_timeout, 10_000);
    assert_eq!(config.fanout_concurrency, 256);
}

#[test]
fn connection_admission_limits_are_configurable() {
    let config = ServerConfig::default()
        .with_handshake_timeout(3_000)
        .with_max_handshake_concurrency(32)
        .with_write_timeout(2_000)
        .with_fanout_concurrency(8);

    assert_eq!(config.handshake_timeout, 3_000);
    assert_eq!(config.max_handshake_concurrency, 32);
    assert_eq!(config.write_timeout, 2_000);
    assert_eq!(config.fanout_concurrency, 8);
}

#[test]
fn derives_bind_addresses_without_client_schemes() {
    let config = ServerConfig::new("ws://0.0.0.0:8080".to_string());

    assert_eq!(config.get_protocol_address(&TransportProtocol::WebSocket), "0.0.0.0:8080");
    assert_eq!(config.get_protocol_address(&TransportProtocol::QUIC), "0.0.0.0:8080");
    assert_eq!(config.get_protocol_address(&TransportProtocol::TCP), "0.0.0.0:8080");
}

#[test]
fn normalizes_explicit_protocol_bind_address() {
    let config = ServerConfig::default()
        .with_protocol_address(TransportProtocol::TCP, "tcp://127.0.0.1:19090".to_string());

    assert_eq!(config.get_protocol_address(&TransportProtocol::TCP), "127.0.0.1:19090");
}

#[test]
fn default_configuration_values() {
    let config = ServerConfig::default();
    assert_eq!(config.bind_address, "0.0.0.0:8080");
    assert_eq!(config.transport, TransportProtocol::WebSocket);
    assert!(config.transports.is_none());
    assert_eq!(config.default_serialization_format, SerializationFormat::Protobuf);
    assert_eq!(config.default_compression, CompressionAlgorithm::Uncompressed);
    assert_eq!(config.default_encryption, EncryptionAlgorithm::Plaintext);
    assert_eq!(config.max_connections, 10000);
    assert_eq!(config.connection_timeout, 300_000);
    assert_eq!(config.max_message_size, 10 * 1024 * 1024);
    assert_eq!(config.device_conflict_strategy, DeviceConflictStrategy::AllowMultiple);
    assert!(!config.auth_enabled);
    assert_eq!(config.auth_timeout, 30_000);
    assert_eq!(config.default_heartbeat, HeartbeatConfig::default());
    assert!(!config.tls.enabled);
}

#[test]
fn zero_fanout_concurrency_is_raised_to_one() {
    let config = ServerConfig::default().with_fanout_concurrency(0);
    assert_eq!(config.fanout_concurrency, 1);
}

#[test]
fn protocol_address_is_replaced_not_duplicated() {
    let config = ServerConfig::default()
        .with_protocol_address(TransportProtocol::TCP, "tcp://127.0.0.1:1".to_string())
        .with_protocol_address(TransportProtocol::QUIC, "quic://127.0.0.1:2".to_string())
        .with_protocol_address(TransportProtocol::TCP, "127.0.0.1:3".to_string());
    assert_eq!(config.protocol_addresses.as_ref().unwrap().len(), 2);
    assert_eq!(config.get_protocol_address(&TransportProtocol::TCP), "127.0.0.1:3");
    assert_eq!(config.get_protocol_address(&TransportProtocol::QUIC), "127.0.0.1:2");
    assert_eq!(config.get_protocol_address(&TransportProtocol::WebSocket), "0.0.0.0:8080");
}

#[test]
fn protocols_default_to_single_transport() {
    let config = ServerConfig::default().tcp();
    assert_eq!(config.get_protocols(), vec![TransportProtocol::TCP]);
    let multi = config.with_protocols(vec![TransportProtocol::QUIC, TransportProtocol::WebSocket]);
    assert_eq!(multi.get_protocols(), vec![TransportProtocol::QUIC, TransportProtocol::WebSocket]);
}

#[test]
fn auth_switches_and_tls_files() {
    let config = ServerConfig::default().enable_auth().with_auth_timeout(5_000);
    assert!(config.auth_enabled);
    assert_eq!(config.auth_timeout, 5_000);
    let config = config.disable_auth().with_tls(TlsConfig::with_files("c.pem".to_string(), "k.pem".to_string()));
    assert!(!config.auth_enabled);
    assert!(config.tls.enabled);
    assert_eq!(config.tls.cert_path.as_deref(), Some("c.pem"));
    assert_eq!(config.tls.key_path.as_deref(), Some("k.pem"));
}
