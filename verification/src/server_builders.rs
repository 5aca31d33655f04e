//! The observer-mode and full-featured server builders: the shared
//! configuration plus the application's event handler (`E`), optional
//! connection and device managers (`C`, `D`) and, for the full-featured
//! builder, the message pipeline's middlewares (`W`) and processors (`P`).
//! Building checks the configuration and hands back the validated server
//! description that the transport layer starts.

use crate::builder::{validate_auth_config, BaseServerBuilderConfig};
use crate::config::{addresses_view, address_insert, has_default_settings, HeartbeatConfig, ServerConfig, TlsConfig};
use crate::device::DeviceConflictStrategy;
use crate::error::{ErrorCode, FlareError};
use crate::protocol::{CompressionAlgorithm, EncryptionAlgorithm, SerializationFormat, TransportProtocol};
use vstd::prelude::*;

verus! {

/// A checked observer-mode server description.
pub struct ObserverServer<A, E, C, D> {
    pub config: ServerConfig,
    pub authenticator: Option<A>,
    pub connection_manager: Option<C>,
    pub device_manager: Option<D>,
    pub event_handler: E,
}

/// Builds an observer-mode server around the application's event handler.
pub struct ObserverServerBuilder<A, E, C, D> {
    pub base: BaseServerBuilderConfig<A>,
    pub connection_manager: Option<C>,
    pub device_manager: Option<D>,
    pub event_handler: E,
}

impl<A, E, C, D> ObserverServerBuilder<A, E, C, D> {
    /// A builder on `bind_address` with the default configuration, no
    /// authenticator and no managers.
    pub fn new(bind_address: String, event_handler: E) -> (b: ObserverServerBuilder<A, E, C, D>)
        ensures
            b.base.config.bind_address == bind_address,
            has_default_settings(b.base.config),
            b.base.authenticator is None,
            b.connection_manager is None,
            b.device_manager is None,
            b.event_handler == event_handler,
    {
        ObserverServerBuilder {
            base: BaseServerBuilderConfig::new(bind_address),
            connection_manager: None,
            device_manager: None,
            event_handler,
        }
    }

    /// Sets the authenticator (needed when authentication is enabled).
    pub fn with_authenticator(self, authenticator: A) -> (b: ObserverServerBuilder<A, E, C, D>)
        ensures
            b == (ObserverServerBuilder {
                base: BaseServerBuilderConfig { authenticator: Some(authenticator), ..self.base },
                ..self
            }),
    {
        ObserverServerBuilder { base: self.base.with_authenticator(authenticator), ..self }
    }

    /// Requires connections to authenticate.
    pub fn enable_auth(self) -> (b: ObserverServerBuilder<A, E, C, D>)
        ensures
            b == (ObserverServerBuilder {
                base: BaseServerBuilderConfig { config: ServerConfig { auth_enabled: true, ..self.base.config }, ..self.base },
                ..self
            }),
    {
        ObserverServerBuilder { base: self.base.enable_auth(), ..self }
    }

    /// Sets the time allowed for authentication (milliseconds).
    pub fn with_auth_timeout(self, timeout: u64) -> (b: ObserverServerBuilder<A, E, C, D>)
        ensures
            b == (ObserverServerBuilder {
                base: BaseServerBuilderConfig { config: ServerConfig { auth_timeout: timeout, ..self.base.config }, ..self.base },
                ..self
            }),
    {
        ObserverServerBuilder { base: self.base.with_auth_timeout(timeout), ..self }
    }

    /// Uses `device_manager` for users' devices.
    pub fn with_device_manager(self, device_manager: D) -> (b: ObserverServerBuilder<A, E, C, D>)
        ensures
            b == (ObserverServerBuilder { device_manager: Some(device_manager), ..self }),
    {
        ObserverServerBuilder { device_manager: Some(device_manager), ..self }
    }

    /// Uses `manager` as the connection manager.
    pub fn with_connection_manager(self, manager: C) -> (b: ObserverServerBuilder<A, E, C, D>)
        ensures
            b == (ObserverServerBuilder { connection_manager: Some(manager), ..self }),
    {
        ObserverServerBuilder { connection_manager: Some(manager), ..self }
    }

    /// Sets the single transport.
    pub fn with_protocol(self, protocol: TransportProtocol) -> (b: ObserverServerBuilder<A, E, C, D>)
        ensures
            b == (ObserverServerBuilder {
                base: BaseServerBuilderConfig { config: ServerConfig { transport: protocol, ..self.base.config }, ..self.base },
                ..self
            }),
    {
        ObserverServerBuilder { base: self.base.with_protocol(protocol), ..self }
    }

    /// Listens on several transports at once.
    pub fn with_protocols(self, protocols: Vec<TransportProtocol>) -> (b: ObserverServerBuilder<A, E, C, D>)
        ensures
            b == (ObserverServerBuilder {
                base: BaseServerBuilderConfig { config: ServerConfig { transports: Some(protocols), ..self.base.config }, ..self.base },
                ..self
            }),
    {
        ObserverServerBuilder { base: self.base.with_protocols(protocols), ..self }
    }

    /// Sets the listen address of one transport, replacing an earlier one.
    pub fn with_protocol_address(self, protocol: TransportProtocol, address: String) -> (b: ObserverServerBuilder<A, E, C, D>)
        ensures
            b.base.config.protocol_addresses is Some,
            addresses_view(b.base.config.protocol_addresses.unwrap()@) == address_insert(
                match self.base.config.protocol_addresses {
                    Some(a) => addresses_view(a@),
                    None => Seq::empty(),
                },
                protocol,
                address@,
            ),
            b == (ObserverServerBuilder {
                base: BaseServerBuilderConfig {
                    config: ServerConfig { protocol_addresses: b.base.config.protocol_addresses, ..self.base.config },
                    ..self.base
                },
                ..self
            }),
    {
        ObserverServerBuilder { base: self.base.with_protocol_address(protocol, address), ..self }
    }

    /// Sets the most connections admitted at once.
    pub fn with_max_connections(self, max: usize) -> (b: ObserverServerBuilder<A, E, C, D>)
        ensures
            b == (ObserverServerBuilder {
                base: BaseServerBuilderConfig { config: ServerConfig { max_connections: max, ..self.base.config }, ..self.base },
                ..self
            }),
    {
        ObserverServerBuilder { base: self.base.with_max_connections(max), ..self }
    }

    /// Sets the heartbeat settings.
    pub fn with_heartbeat(self, heartbeat: HeartbeatConfig) -> (b: ObserverServerBuilder<A, E, C, D>)
        ensures
            b == (ObserverServerBuilder {
                base: BaseServerBuilderConfig { config: ServerConfig { default_heartbeat: heartbeat, ..self.base.config }, ..self.base },
                ..self
            }),
    {
        ObserverServerBuilder { base: self.base.with_heartbeat(heartbeat), ..self }
    }

    /// Sets TLS.
    pub fn with_tls(self, tls: TlsConfig) -> (b: ObserverServerBuilder<A, E, C, D>)
        ensures
            b == (ObserverServerBuilder {
                base: BaseServerBuilderConfig { config: ServerConfig { tls, ..self.base.config }, ..self.base },
                ..self
            }),
    {
        ObserverServerBuilder { base: self.base.with_tls(tls), ..self }
    }

    /// Sets the format proposed in negotiation.
    pub fn with_default_format(self, format: SerializationFormat) -> (b: ObserverServerBuilder<A, E, C, D>)
        ensures
            b == (ObserverServerBuilder {
                base: BaseServerBuilderConfig { config: ServerConfig { default_serialization_format: format, ..self.base.config }, ..self.base },
                ..self
            }),
    {
        ObserverServerBuilder { base: self.base.with_default_format(format), ..self }
    }

    /// Sets the compression proposed in negotiation.
    pub fn with_default_compression(self, compression: CompressionAlgorithm) -> (b: ObserverServerBuilder<A, E, C, D>)
        ensures
            b == (ObserverServerBuilder {
                base: BaseServerBuilderConfig { config: ServerConfig { default_compression: compression, ..self.base.config }, ..self.base },
                ..self
            }),
    {
        ObserverServerBuilder { base: self.base.with_default_compression(compression), ..self }
    }

    /// The checked server description; a configuration that enables
    /// authentication without an authenticator is refused with
    /// [`ErrorCode::ConfigurationError`].
    pub fn build(self) -> (r: Result<ObserverServer<A, E, C, D>, FlareError>)
        ensures
            r is Err <==> (self.base.config.auth_enabled && self.base.authenticator is None),
            r is Err ==> r->Err_0.code == ErrorCode::ConfigurationError,
            r is Ok ==> r->Ok_0 == (ObserverServer {
                config: self.base.config,
                authenticator: self.base.authenticator,
                connection_manager: self.connection_manager,
                device_manager: self.device_manager,
                event_handler: self.event_handler,
            }),
    {
        match validate_auth_config(&self.base.config, &self.base.authenticator) {
            Err(e) => Err(e),
            Ok(()) => Ok(ObserverServer {
                config: self.base.config,
                authenticator: self.base.authenticator,
                connection_manager: self.connection_manager,
                device_manager: self.device_manager,
                event_handler: self.event_handler,
            }),
        }
    }
}

/// A checked full-featured server description.
pub struct FlareServer<A, E, C, D, W, P> {
    pub config: ServerConfig,
    pub authenticator: Option<A>,
    pub connection_manager: Option<C>,
    pub device_manager: Option<D>,
    pub event_handler: E,
    pub middlewares: Vec<W>,
    pub processors: Vec<P>,
}

/// Builds a full-featured server: the application's event handler, the
/// managers and the message pipeline.
pub struct FlareServerBuilder<A, E, C, D, W, P> {
    pub base: BaseServerBuilderConfig<A>,
    pub event_handler: E,
    pub connection_manager: Option<C>,
    pub device_manager: Option<D>,
    pub middlewares: Vec<W>,
    pub processors: Vec<P>,
}

impl<A, E, C, D, W, P> FlareServerBuilder<A, E, C, D, W, P> {
    /// A builder on `bind_address` with the default configuration, no
    /// authenticator, no managers and an empty pipeline.
    pub fn new(bind_address: String, event_handler: E) -> (b: FlareServerBuilder<A, E, C, D, W, P>)
        ensures
            b.base.config.bind_address == bind_address,
            has_default_settings(b.base.config),
            b.base.authenticator is None,
            b.connection_manager is None,
            b.device_manager is None,
            b.event_handler == event_handler,
            b.middlewares@.len() == 0,
            b.processors@.len() == 0,
    {
        FlareServerBuilder {
            base: BaseServerBuilderConfig::new(bind_address),
            event_handler,
            connection_manager: None,
            device_manager: None,
            middlewares: Vec::new(),
            processors: Vec::new(),
        }
    }

    /// Uses `manager` as the connection manager.
    pub fn with_connection_manager(self, manager: C) -> (b: FlareServerBuilder<A, E, C, D, W, P>)
        ensures
            b == (FlareServerBuilder { connection_manager: Some(manager), ..self }),
    {
        FlareServerBuilder { connection_manager: Some(manager), ..self }
    }

    /// Uses `device_manager` for users' devices.
    pub fn with_device_manager(self, device_manager: D) -> (b: FlareServerBuilder<A, E, C, D, W, P>)
        ensures
            b == (FlareServerBuilder { device_manager: Some(device_manager), ..self }),
    {
        FlareServerBuilder { device_manager: Some(device_manager), ..self }
    }

    /// Sets the authenticator (needed when authentication is enabled).
    pub fn with_authenticator(self, authenticator: A) -> (b: FlareServerBuilder<A, E, C, D, W, P>)
        ensures
            b == (FlareServerBuilder {
                base: BaseServerBuilderConfig { authenticator: Some(authenticator), ..self.base },
                ..self
            }),
    {
        FlareServerBuilder { base: self.base.with_authenticator(authenticator), ..self }
    }

    /// Requires connections to authenticate.
    pub fn enable_auth(self) -> (b: FlareServerBuilder<A, E, C, D, W, P>)
        ensures
            b == (FlareServerBuilder {
                base: BaseServerBuilderConfig { config: ServerConfig { auth_enabled: true, ..self.base.config }, ..self.base },
                ..self
            }),
    {
        FlareServerBuilder { base: self.base.enable_auth(), ..self }
    }

    /// Sets the time allowed for authentication (milliseconds).
    pub fn with_auth_timeout(self, timeout: u64) -> (b: FlareServerBuilder<A, E, C, D, W, P>)
        ensures
            b == (FlareServerBuilder {
                base: BaseServerBuilderConfig { config: ServerConfig { auth_timeout: timeout, ..self.base.config }, ..self.base },
                ..self
            }),
    {
        FlareServerBuilder { base: self.base.with_auth_timeout(timeout), ..self }
    }

    /// Sets the single transport.
    pub fn with_protocol(self, protocol: TransportProtocol) -> (b: FlareServerBuilder<A, E, C, D, W, P>)
        ensures
            b == (FlareServerBuilder {
                base: BaseServerBuilderConfig { config: ServerConfig { transport: protocol, ..self.base.config }, ..self.base },
                ..self
            }),
    {
        FlareServerBuilder { base: self.base.with_protocol(protocol), ..self }
    }

    /// Listens on several transports at once.
    pub fn with_protocols(self, protocols: Vec<TransportProtocol>) -> (b: FlareServerBuilder<A, E, C, D, W, P>)
        ensures
            b == (FlareServerBuilder {
                base: BaseServerBuilderConfig { config: ServerConfig { transports: Some(protocols), ..self.base.config }, ..self.base },
                ..self
            }),
    {
        FlareServerBuilder { base: self.base.with_protocols(protocols), ..self }
    }

    /// Sets the listen address of one transport, replacing an earlier one.
    pub fn with_protocol_address(self, protocol: TransportProtocol, address: String) -> (b: FlareServerBuilder<A, E, C, D, W, P>)
        ensures
            b.base.config.protocol_addresses is Some,
            addresses_view(b.base.config.protocol_addresses.unwrap()@) == address_insert(
                match self.base.config.protocol_addresses {
                    Some(a) => addresses_view(a@),
                    None => Seq::empty(),
                },
                protocol,
                address@,
            ),
            b == (FlareServerBuilder {
                base: BaseServerBuilderConfig {
                    config: ServerConfig { protocol_addresses: b.base.config.protocol_addresses, ..self.base.config },
                    ..self.base
                },
                ..self
            }),
    {
        FlareServerBuilder { base: self.base.with_protocol_address(protocol, address), ..self }
    }

    /// Sets the format proposed in negotiation.
    pub fn with_default_format(self, format: SerializationFormat) -> (b: FlareServerBuilder<A, E, C, D, W, P>)
        ensures
            b == (FlareServerBuilder {
                base: BaseServerBuilderConfig { config: ServerConfig { default_serialization_format: format, ..self.base.config }, ..self.base },
                ..self
            }),
    {
        FlareServerBuilder { base: self.base.with_default_format(format), ..self }
    }

    /// Sets the compression proposed in negotiation.
    pub fn with_default_compression(self, compression: CompressionAlgorithm) -> (b: FlareServerBuilder<A, E, C, D, W, P>)
        ensures
            b == (FlareServerBuilder {
                base: BaseServerBuilderConfig { config: ServerConfig { default_compression: compression, ..self.base.config }, ..self.base },
                ..self
            }),
    {
        FlareServerBuilder { base: self.base.with_default_compression(compression), ..self }
    }

    /// Sets the encryption proposed in negotiation.
    pub fn with_default_encryption(self, encryption: EncryptionAlgorithm) -> (b: FlareServerBuilder<A, E, C, D, W, P>)
        ensures
            b == (FlareServerBuilder {
                base: BaseServerBuilderConfig { config: ServerConfig { default_encryption: encryption, ..self.base.config }, ..self.base },
                ..self
            }),
    {
        FlareServerBuilder { base: self.base.with_default_encryption(encryption), ..self }
    }

    /// Sets the most connections admitted at once.
    pub fn with_max_connections(self, max: usize) -> (b: FlareServerBuilder<A, E, C, D, W, P>)
        ensures
            b == (FlareServerBuilder {
                base: BaseServerBuilderConfig { config: ServerConfig { max_connections: max, ..self.base.config }, ..self.base },
                ..self
            }),
    {
        FlareServerBuilder { base: self.base.with_max_connections(max), ..self }
    }

    /// Sets the idle time after which a connection is dropped (milliseconds).
    pub fn with_connection_timeout(self, timeout: u64) -> (b: FlareServerBuilder<A, E, C, D, W, P>)
        ensures
            b == (FlareServerBuilder {
                base: BaseServerBuilderConfig { config: ServerConfig { connection_timeout: timeout, ..self.base.config }, ..self.base },
                ..self
            }),
    {
        FlareServerBuilder { base: self.base.with_connection_timeout(timeout), ..self }
    }

    /// Sets the heartbeat settings.
    pub fn with_heartbeat(self, heartbeat: HeartbeatConfig) -> (b: FlareServerBuilder<A, E, C, D, W, P>)
        ensures
            b == (FlareServerBuilder {
                base: BaseServerBuilderConfig { config: ServerConfig { default_heartbeat: heartbeat, ..self.base.config }, ..self.base },
                ..self
            }),
    {
        FlareServerBuilder { base: self.base.with_heartbeat(heartbeat), ..self }
    }

    /// Sets TLS.
    pub fn with_tls(self, tls: TlsConfig) -> (b: FlareServerBuilder<A, E, C, D, W, P>)
        ensures
            b == (FlareServerBuilder {
                base: BaseServerBuilderConfig { config: ServerConfig { tls, ..self.base.config }, ..self.base },
                ..self
            }),
    {
        FlareServerBuilder { base: self.base.with_tls(tls), ..self }
    }

    /// Sets how a new device of a user treats the user's other devices.
    pub fn with_device_conflict_strategy(self, strategy: DeviceConflictStrategy) -> (b: FlareServerBuilder<A, E, C, D, W, P>)
        ensures
            b == (FlareServerBuilder {
                base: BaseServerBuilderConfig { config: ServerConfig { device_conflict_strategy: strategy, ..self.base.config }, ..self.base },
                ..self
            }),
    {
        FlareServerBuilder { base: self.base.with_device_conflict_strategy(strategy), ..self }
    }

    /// Appends a middleware to the message pipeline; middlewares run in the
    /// order they were added.
    pub fn with_middleware(self, middleware: W) -> (b: FlareServerBuilder<A, E, C, D, W, P>)
        ensures
            b.middlewares@ == self.middlewares@.push(middleware),
            b == (FlareServerBuilder { middlewares: b.middlewares, ..self }),
    {
        let mut middlewares = self.middlewares;
        middlewares.push(middleware);
        FlareServerBuilder { middlewares, ..self }
    }

    /// Appends a processor to the message pipeline; processors run in the
    /// order they were added.
    pub fn with_processor(self, processor: P) -> (b: FlareServerBuilder<A, E, C, D, W, P>)
        ensures
            b.processors@ == self.processors@.push(processor),
            b == (FlareServerBuilder { processors: b.processors, ..self }),
    {
        let mut processors = self.processors;
        processors.push(processor);
        FlareServerBuilder { processors, ..self }
    }

    /// The checked server description; a configuration that enables
    /// authentication without an authenticator is refused with
    /// [`ErrorCode::ConfigurationError`].
    pub fn build(self) -> (r: Result<FlareServer<A, E, C, D, W, P>, FlareError>)
        ensures
            r is Err <==> (self.base.config.auth_enabled && self.base.authenticator is None),
            r is Err ==> r->Err_0.code == ErrorCode::ConfigurationError,
            r is Ok ==> r->Ok_0 == (FlareServer {
                config: self.base.config,
                authenticator: self.base.authenticator,
                connection_manager: self.connection_manager,
                device_manager: self.device_manager,
                event_handler: self.event_handler,
                middlewares: self.middlewares,
                processors: self.processors,
            }),
    {
        match validate_auth_config(&self.base.config, &self.base.authenticator) {
            Err(e) => Err(e),
            Ok(()) => Ok(FlareServer {
                config: self.base.config,
                authenticator: self.base.authenticator,
                connection_manager: self.connection_manager,
                device_manager: self.device_manager,
                event_handler: self.event_handler,
                middlewares: self.middlewares,
                processors: self.processors,
            }),
        }
    }
}

} // verus!
