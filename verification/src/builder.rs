//! Server builders: the configuration they share, the check that an
//! authenticating server has an authenticator, and the simple builder that
//! carries message and connection callbacks.

use crate::config::{addresses_view, address_insert, has_default_settings, HeartbeatConfig, ServerConfig, TlsConfig};
use crate::device::DeviceConflictStrategy;
use crate::error::{ErrorCode, FlareError};
use crate::protocol::{CompressionAlgorithm, EncryptionAlgorithm, SerializationFormat, TransportProtocol};
use vstd::prelude::*;

verus! {

/// Encodes and decodes frames with a negotiated format and codecs.
#[derive(Debug, Clone, Copy, PartialEq, Eq, Structural)]
pub struct MessageParser {
    pub format: SerializationFormat,
    pub compression: CompressionAlgorithm,
    pub encryption: EncryptionAlgorithm,
}

impl MessageParser {
    /// A parser for the given format and codecs.
    pub fn new(format: SerializationFormat, compression: CompressionAlgorithm, encryption: EncryptionAlgorithm) -> (p: MessageParser)
        ensures
            p == (MessageParser { format, compression, encryption }),
    {
        MessageParser { format, compression, encryption }
    }
}

/// The parser for a configuration's default format and codecs.
pub fn create_message_parser(config: &ServerConfig) -> (p: MessageParser)
    ensures
        p == (MessageParser {
            format: config.default_serialization_format,
            compression: config.default_compression,
            encryption: config.default_encryption,
        }),
{
    MessageParser::new(config.default_serialization_format, config.default_compression, config.default_encryption)
}

/// The message of the refusal of an authenticating server without an
/// authenticator.
pub open spec fn missing_authenticator_message() -> Seq<char> {
    "Authentication is enabled but no authenticator was provided; set one with with_authenticator()"@
}

/// Refuses a configuration that enables authentication without an
/// authenticator, with [`ErrorCode::ConfigurationError`].
pub fn validate_auth_config<A>(config: &ServerConfig, authenticator: &Option<A>) -> (r: Result<(), FlareError>)
    ensures
        r is Err <==> (config.auth_enabled && authenticator is None),
        r is Err ==> r->Err_0.code == ErrorCode::ConfigurationError && r->Err_0.message@
            == missing_authenticator_message(),
{
    if config.auth_enabled && authenticator.is_none() {
        return Err(
            FlareError::new(
                ErrorCode::ConfigurationError,
                String::from_str(
                    "Authentication is enabled but no authenticator was provided; set one with with_authenticator()",
                ),
            ),
        );
    }
    Ok(())
}

/// The configuration that every builder collects, with the authenticator
/// (of type `A`) to check credentials with.
pub struct BaseServerBuilderConfig<A> {
    pub config: ServerConfig,
    pub authenticator: Option<A>,
}

impl<A> BaseServerBuilderConfig<A> {
    /// The default configuration on `bind_address`, no authenticator.
    pub fn new(bind_address: String) -> (b: BaseServerBuilderConfig<A>)
        ensures
            b.config.bind_address == bind_address,
            has_default_settings(b.config),
            b.authenticator is None,
    {
        BaseServerBuilderConfig { config: ServerConfig::new(bind_address), authenticator: None }
    }

    /// Sets the authenticator (needed when authentication is enabled).
    pub fn with_authenticator(self, authenticator: A) -> (b: BaseServerBuilderConfig<A>)
        ensures
            b.config == self.config,
            b.authenticator == Some(authenticator),
    {
        BaseServerBuilderConfig { config: self.config, authenticator: Some(authenticator) }
    }

    /// Requires connections to authenticate.
    pub fn enable_auth(self) -> (b: BaseServerBuilderConfig<A>)
        ensures
            b.config == (ServerConfig { auth_enabled: true, ..self.config }),
            b.authenticator == self.authenticator,
    {
        BaseServerBuilderConfig { config: self.config.enable_auth(), authenticator: self.authenticator }
    }

    /// Sets the time allowed for authentication (milliseconds).
    pub fn with_auth_timeout(self, timeout: u64) -> (b: BaseServerBuilderConfig<A>)
        ensures
            b.config == (ServerConfig { auth_timeout: timeout, ..self.config }),
            b.authenticator == self.authenticator,
    {
        BaseServerBuilderConfig { config: self.config.with_auth_timeout(timeout), authenticator: self.authenticator }
    }

    /// Sets the single transport.
    pub fn with_protocol(self, protocol: TransportProtocol) -> (b: BaseServerBuilderConfig<A>)
        ensures
            b.config == (ServerConfig { transport: protocol, ..self.config }),
            b.authenticator == self.authenticator,
    {
        BaseServerBuilderConfig { config: ServerConfig { transport: protocol, ..self.config }, authenticator: self.authenticator }
    }

    /// Listens on several transports at once.
    pub fn with_protocols(self, protocols: Vec<TransportProtocol>) -> (b: BaseServerBuilderConfig<A>)
        ensures
            b.config == (ServerConfig { transports: Some(protocols), ..self.config }),
            b.authenticator == self.authenticator,
    {
        BaseServerBuilderConfig { config: self.config.with_protocols(protocols), authenticator: self.authenticator }
    }

    /// Sets the listen address of one transport, replacing an earlier one.
    pub fn with_protocol_address(self, protocol: TransportProtocol, address: String) -> (b: BaseServerBuilderConfig<A>)
        ensures
            b.config.protocol_addresses is Some,
            addresses_view(b.config.protocol_addresses.unwrap()@) == address_insert(
                match self.config.protocol_addresses {
                    Some(a) => addresses_view(a@),
                    None => Seq::empty(),
                },
                protocol,
                address@,
            ),
            b.config == (ServerConfig { protocol_addresses: b.config.protocol_addresses, ..self.config }),
            b.authenticator == self.authenticator,
    {
        BaseServerBuilderConfig {
            config: self.config.with_protocol_address(protocol, address),
            authenticator: self.authenticator,
        }
    }

    /// Sets the most connections admitted at once.
    pub fn with_max_connections(self, max: usize) -> (b: BaseServerBuilderConfig<A>)
        ensures
            b.config == (ServerConfig { max_connections: max, ..self.config }),
            b.authenticator == self.authenticator,
    {
        BaseServerBuilderConfig { config: self.config.with_max_connections(max), authenticator: self.authenticator }
    }

    /// Sets the idle timeout (milliseconds).
    pub fn with_connection_timeout(self, timeout: u64) -> (b: BaseServerBuilderConfig<A>)
        ensures
            b.config == (ServerConfig { connection_timeout: timeout, ..self.config }),
            b.authenticator == self.authenticator,
    {
        BaseServerBuilderConfig { config: self.config.with_connection_timeout(timeout), authenticator: self.authenticator }
    }

    /// Sets the heartbeat settings.
    pub fn with_heartbeat(self, heartbeat: HeartbeatConfig) -> (b: BaseServerBuilderConfig<A>)
        ensures
            b.config == (ServerConfig { default_heartbeat: heartbeat, ..self.config }),
            b.authenticator == self.authenticator,
    {
        BaseServerBuilderConfig { config: self.config.with_heartbeat(heartbeat), authenticator: self.authenticator }
    }

    /// Sets TLS.
    pub fn with_tls(self, tls: TlsConfig) -> (b: BaseServerBuilderConfig<A>)
        ensures
            b.config == (ServerConfig { tls, ..self.config }),
            b.authenticator == self.authenticator,
    {
        BaseServerBuilderConfig { config: self.config.with_tls(tls), authenticator: self.authenticator }
    }

    /// Sets the format proposed in negotiation.
    pub fn with_default_format(self, format: SerializationFormat) -> (b: BaseServerBuilderConfig<A>)
        ensures
            b.config == (ServerConfig { default_serialization_format: format, ..self.config }),
            b.authenticator == self.authenticator,
    {
        BaseServerBuilderConfig { config: self.config.with_format(format), authenticator: self.authenticator }
    }

    /// Sets the compression proposed in negotiation.
    pub fn with_default_compression(self, compression: CompressionAlgorithm) -> (b: BaseServerBuilderConfig<A>)
        ensures
            b.config == (ServerConfig { default_compression: compression, ..self.config }),
            b.authenticator == self.authenticator,
    {
        BaseServerBuilderConfig { config: self.config.with_compression(compression), authenticator: self.authenticator }
    }

    /// Sets the encryption proposed in negotiation.
    pub fn with_default_encryption(self, encryption: EncryptionAlgorithm) -> (b: BaseServerBuilderConfig<A>)
        ensures
            b.config == (ServerConfig { default_encryption: encryption, ..self.config }),
            b.authenticator == self.authenticator,
    {
        BaseServerBuilderConfig { config: self.config.with_encryption(encryption), authenticator: self.authenticator }
    }

    /// Sets the multi-device policy.
    pub fn with_device_conflict_strategy(self, strategy: DeviceConflictStrategy) -> (b: BaseServerBuilderConfig<A>)
        ensures
            b.config == (ServerConfig { device_conflict_strategy: strategy, ..self.config }),
            b.authenticator == self.authenticator,
    {
        BaseServerBuilderConfig {
            config: self.config.with_device_conflict_strategy(strategy),
            authenticator: self.authenticator,
        }
    }

    /// Refuses the configuration if it authenticates without an
    /// authenticator; see [`validate_auth_config`].
    pub fn validate(&self) -> (r: Result<(), FlareError>)
        ensures
            r is Err <==> (self.config.auth_enabled && self.authenticator is None),
            r is Err ==> r->Err_0.code == ErrorCode::ConfigurationError,
    {
        validate_auth_config(&self.config, &self.authenticator)
    }
}

/// The simple builder: the shared configuration plus a message callback
/// (`M`), a connect callback (`C`) and a disconnect callback (`D`).
pub struct ServerBuilder<A, M, C, D> {
    pub base: BaseServerBuilderConfig<A>,
    pub message_handler: Option<M>,
    pub on_connect: Option<C>,
    pub on_disconnect: Option<D>,
}

impl<A, M, C, D> ServerBuilder<A, M, C, D> {
    /// A builder on `bind_address` with the default configuration and no
    /// callbacks.
    pub fn new(bind_address: String) -> (b: ServerBuilder<A, M, C, D>)
        ensures
            b.base.config.bind_address == bind_address,
            has_default_settings(b.base.config),
            b.base.authenticator is None,
            b.message_handler is None,
            b.on_connect is None,
            b.on_disconnect is None,
    {
        ServerBuilder {
            base: BaseServerBuilderConfig::new(bind_address),
            message_handler: None,
            on_connect: None,
            on_disconnect: None,
        }
    }

    /// Sets the authenticator.
    pub fn with_authenticator(self, authenticator: A) -> (b: ServerBuilder<A, M, C, D>)
        ensures
            b == (ServerBuilder {
                base: BaseServerBuilderConfig { config: self.base.config, authenticator: Some(authenticator) },
                ..self
            }),
    {
        ServerBuilder { base: self.base.with_authenticator(authenticator), ..self }
    }

    /// Requires connections to authenticate.
    pub fn enable_auth(self) -> (b: ServerBuilder<A, M, C, D>)
        ensures
            b == (ServerBuilder {
                base: BaseServerBuilderConfig {
                    config: ServerConfig { auth_enabled: true, ..self.base.config },
                    ..self.base
                },
                ..self
            }),
    {
        ServerBuilder { base: self.base.enable_auth(), ..self }
    }

    /// Sets the time allowed for authentication (milliseconds).
    pub fn with_auth_timeout(self, timeout: u64) -> (b: ServerBuilder<A, M, C, D>)
        ensures
            b == (ServerBuilder {
                base: BaseServerBuilderConfig {
                    config: ServerConfig { auth_timeout: timeout, ..self.base.config },
                    ..self.base
                },
                ..self
            }),
    {
        ServerBuilder { base: self.base.with_auth_timeout(timeout), ..self }
    }

    /// Sets the callback that answers application messages.
    pub fn on_message(self, handler: M) -> (b: ServerBuilder<A, M, C, D>)
        ensures
            b == (ServerBuilder { message_handler: Some(handler), ..self }),
    {
        ServerBuilder { message_handler: Some(handler), ..self }
    }

    /// Sets the callback run when a connection is established.
    pub fn on_connect(self, handler: C) -> (b: ServerBuilder<A, M, C, D>)
        ensures
            b == (ServerBuilder { on_connect: Some(handler), ..self }),
    {
        ServerBuilder { on_connect: Some(handler), ..self }
    }

    /// Sets the callback run when a connection closes.
    pub fn on_disconnect(self, handler: D) -> (b: ServerBuilder<A, M, C, D>)
        ensures
            b == (ServerBuilder { on_disconnect: Some(handler), ..self }),
    {
        ServerBuilder { on_disconnect: Some(handler), ..self }
    }

    /// Sets the single transport.
    pub fn with_protocol(self, protocol: TransportProtocol) -> (b: ServerBuilder<A, M, C, D>)
        ensures
            b == (ServerBuilder {
                base: BaseServerBuilderConfig {
                    config: ServerConfig { transport: protocol, ..self.base.config },
                    ..self.base
                },
                ..self
            }),
    {
        ServerBuilder { base: self.base.with_protocol(protocol), ..self }
    }

    /// Listens on several transports at once.
    pub fn with_protocols(self, protocols: Vec<TransportProtocol>) -> (b: ServerBuilder<A, M, C, D>)
        ensures
            b == (ServerBuilder {
                base: BaseServerBuilderConfig {
                    config: ServerConfig { transports: Some(protocols), ..self.base.config },
                    ..self.base
                },
                ..self
            }),
    {
        ServerBuilder { base: self.base.with_protocols(protocols), ..self }
    }

    /// Sets the most connections admitted at once.
    pub fn with_max_connections(self, max: usize) -> (b: ServerBuilder<A, M, C, D>)
        ensures
            b == (ServerBuilder {
                base: BaseServerBuilderConfig {
                    config: ServerConfig { max_connections: max, ..self.base.config },
                    ..self.base
                },
                ..self
            }),
    {
        ServerBuilder { base: self.base.with_max_connections(max), ..self }
    }

    /// Sets the heartbeat settings.
    pub fn with_heartbeat(self, heartbeat: HeartbeatConfig) -> (b: ServerBuilder<A, M, C, D>)
        ensures
            b == (ServerBuilder {
                base: BaseServerBuilderConfig {
                    config: ServerConfig { default_heartbeat: heartbeat, ..self.base.config },
                    ..self.base
                },
                ..self
            }),
    {
        ServerBuilder { base: self.base.with_heartbeat(heartbeat), ..self }
    }

    /// Sets TLS.
    pub fn with_tls(self, tls: TlsConfig) -> (b: ServerBuilder<A, M, C, D>)
        ensures
            b == (ServerBuilder {
                base: BaseServerBuilderConfig { config: ServerConfig { tls, ..self.base.config }, ..self.base },
                ..self
            }),
    {
        ServerBuilder { base: self.base.with_tls(tls), ..self }
    }

    /// Sets the format proposed in negotiation.
    pub fn with_default_format(self, format: SerializationFormat) -> (b: ServerBuilder<A, M, C, D>)
        ensures
            b == (ServerBuilder {
                base: BaseServerBuilderConfig {
                    config: ServerConfig { default_serialization_format: format, ..self.base.config },
                    ..self.base
                },
                ..self
            }),
    {
        ServerBuilder { base: self.base.with_default_format(format), ..self }
    }

    /// Sets the compression proposed in negotiation.
    pub fn with_default_compression(self, compression: CompressionAlgorithm) -> (b: ServerBuilder<A, M, C, D>)
        ensures
            b == (ServerBuilder {
                base: BaseServerBuilderConfig {
                    config: ServerConfig { default_compression: compression, ..self.base.config },
                    ..self.base
                },
                ..self
            }),
    {
        ServerBuilder { base: self.base.with_default_compression(compression), ..self }
    }
}

} // verus!
