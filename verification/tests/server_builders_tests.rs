use flare_core::error::ErrorCode;
use flare_core::protocol::{CompressionAlgorithm, EncryptionAlgorithm, SerializationFormat};
use flare_core::server_builders::{FlareServerBuilder, ObserverServerBuilder};

#[test]
fn observer_builder_collects_settings() {
    let b: ObserverServerBuilder<u8, &str, u16, u32> = ObserverServerBuilder::new("0.0.0.0:9000".to_string(), "handler");
    let server = b
        .with_max_connections(42)
        .with_default_format(SerializationFormat::Json)
        .with_connection_manager(7)
        .with_device_manager(9)
        .build()
        .unwrap();
    assert_eq!(server.config.bind_address, "0.0.0.0:9000");
    assert_eq!(server.config.max_connections, 42);
    assert_eq!(server.connection_manager, Some(7));
    assert_eq!(server.device_manager, Some(9));
    assert_eq!(server.event_handler, "handler");
    assert!(server.authenticator.is_none());
}

#[test]
fn observer_builder_refuses_auth_without_authenticator() {
    let b: ObserverServerBuilder<u8, (), u16, u32> = ObserverServerBuilder::new("a".to_string(), ());
    let e = b.enable_auth().build().err().unwrap();
    assert_eq!(e.code, ErrorCode::ConfigurationError);
    let b: ObserverServerBuilder<u8, (), u16, u32> = ObserverServerBuilder::new("a".to_string(), ());
    let s = b.enable_auth().with_authenticator(3).with_auth_timeout(500).build().unwrap();
    assert!(s.config.auth_enabled);
    assert_eq!(s.config.auth_timeout, 500);
    assert_eq!(s.authenticator, Some(3));
}

#[test]
fn flare_builder_keeps_pipeline_order() {
    let b: FlareServerBuilder<u8, (), u16, u32, &str, char> = FlareServerBuilder::new("b".to_string(), ());
    let s = b
        .with_middleware("log")
        .with_middleware("metrics")
        .with_processor('p')
        .with_default_compression(CompressionAlgorithm::Gzip)
        .with_default_encryption(EncryptionAlgorithm::Aes256Gcm)
        .with_connection_timeout(1_234)
        .build()
        .unwrap();
    assert_eq!(s.middlewares, vec!["log", "metrics"]);
    assert_eq!(s.processors, vec!['p']);
    assert_eq!(s.config.default_compression, CompressionAlgorithm::Gzip);
    assert_eq!(s.config.default_encryption, EncryptionAlgorithm::Aes256Gcm);
    assert_eq!(s.config.connection_timeout, 1_234);
}

#[test]
fn flare_builder_refuses_auth_without_authenticator() {
    let b: FlareServerBuilder<u8, (), u16, u32, (), ()> = FlareServerBuilder::new("b".to_string(), ());
    let e = b.enable_auth().build().err().unwrap();
    assert_eq!(e.code, ErrorCode::ConfigurationError);
}
