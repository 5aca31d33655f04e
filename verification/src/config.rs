//! Server configuration and its builder methods. Durations are held in
//! milliseconds.

use crate::device::{opt_view, DeviceConflictStrategy};
use crate::protocol::{
    server_bind_address, CompressionAlgorithm, EncryptionAlgorithm, SerializationFormat,
    TransportProtocol,
};
use vstd::prelude::*;

verus! {

/// Heartbeat checking of connections.
#[derive(Debug, Clone, Copy, PartialEq, Eq, Structural)]
pub struct HeartbeatConfig {
    /// How often connections are checked, in milliseconds.
    pub check_interval: u64,
    /// Silence after which a connection counts as dead, in milliseconds.
    pub connection_timeout: u64,
    /// Whether dead connections are removed automatically.
    pub enable_auto_cleanup: bool,
}

impl HeartbeatConfig {
    /// Checks every 10 s, times out after 30 s, cleans up automatically.
    pub fn default() -> (c: HeartbeatConfig)
        ensures
            c == (HeartbeatConfig {
                check_interval: 10_000,
                connection_timeout: 30_000,
                enable_auto_cleanup: true,
            }),
    {
        HeartbeatConfig { check_interval: 10_000, connection_timeout: 30_000, enable_auto_cleanup: true }
    }
}

/// TLS settings for secure transports.
#[derive(Debug, Clone)]
pub struct TlsConfig {
    /// Whether TLS is used.
    pub enabled: bool,
    /// Certificate chain file.
    pub cert_path: Option<String>,
    /// Private key file.
    pub key_path: Option<String>,
}

impl TlsConfig {
    /// TLS switched off.
    pub fn none() -> (t: TlsConfig)
        ensures
            !t.enabled,
            t.cert_path is None,
            t.key_path is None,
    {
        TlsConfig { enabled: false, cert_path: None, key_path: None }
    }

    /// TLS with the given certificate and key files.
    pub fn with_files(cert_path: String, key_path: String) -> (t: TlsConfig)
        ensures
            t.enabled,
            opt_view(t.cert_path) == Some(cert_path@),
            opt_view(t.key_path) == Some(key_path@),
    {
        TlsConfig { enabled: true, cert_path: Some(cert_path), key_path: Some(key_path) }
    }
}

/// Per-protocol listen addresses, one entry per protocol.
pub type ProtocolAddresses = Vec<(TransportProtocol, String)>;

/// The view of [`ProtocolAddresses`].
pub open spec fn addresses_view(a: Seq<(TransportProtocol, String)>) -> Seq<(TransportProtocol, Seq<char>)> {
    a.map_values(|e: (TransportProtocol, String)| (e.0, e.1@))
}

/// The address configured for `p` (first entry for it).
pub open spec fn address_of(a: Seq<(TransportProtocol, Seq<char>)>, p: TransportProtocol) -> Option<Seq<char>>
    decreases a.len(),
{
    if a.len() == 0 {
        None
    } else if a[0].0 == p {
        Some(a[0].1)
    } else {
        address_of(a.drop_first(), p)
    }
}

/// Sets the address of `p`: its entry is replaced in place, or one appended.
pub open spec fn address_insert(a: Seq<(TransportProtocol, Seq<char>)>, p: TransportProtocol, v: Seq<char>) -> Seq<(TransportProtocol, Seq<char>)>
    decreases a.len(),
{
    if a.len() == 0 {
        seq![(p, v)]
    } else if a[0].0 == p {
        seq![(p, v)] + a.drop_first()
    } else {
        seq![a[0]] + address_insert(a.drop_first(), p, v)
    }
}

/// Server configuration.
#[derive(Debug, Clone)]
pub struct ServerConfig {
    /// Listen address (the default for every protocol).
    pub bind_address: String,
    /// Transport when a single protocol is used.
    pub transport: TransportProtocol,
    /// Transports to listen on together, when set.
    pub transports: Option<Vec<TransportProtocol>>,
    /// Per-protocol listen addresses, when set.
    pub protocol_addresses: Option<ProtocolAddresses>,
    /// Default serialization format.
    pub default_serialization_format: SerializationFormat,
    /// Default compression.
    pub default_compression: CompressionAlgorithm,
    /// Default encryption.
    pub default_encryption: EncryptionAlgorithm,
    /// Most connections admitted at once.
    pub max_connections: usize,
    /// Handshake timeout, in milliseconds.
    pub handshake_timeout: u64,
    /// Most handshakes in flight at once.
    pub max_handshake_concurrency: usize,
    /// Timeout of one write to a connection, in milliseconds.
    pub write_timeout: u64,
    /// Most sends in flight during a fan-out.
    pub fanout_concurrency: usize,
    /// Idle time after which a connection is dropped, in milliseconds.
    pub connection_timeout: u64,
    /// Default heartbeat settings.
    pub default_heartbeat: HeartbeatConfig,
    /// TLS settings.
    pub tls: TlsConfig,
    /// Largest accepted message, in bytes.
    pub max_message_size: usize,
    /// Multi-device policy.
    pub device_conflict_strategy: DeviceConflictStrategy,
    /// Whether connections must authenticate before exchanging messages.
    pub auth_enabled: bool,
    /// Time allowed for authentication, in milliseconds.
    pub auth_timeout: u64,
}

/// The defaults shared by [`ServerConfig::default`] and [`ServerConfig::new`],
/// for every field but the bind address.
pub open spec fn has_default_settings(c: ServerConfig) -> bool {
    &&& c.transport == TransportProtocol::WebSocket
    &&& c.transports is None
    &&& c.protocol_addresses is None
    &&& c.default_serialization_format == SerializationFormat::Protobuf
    &&& c.default_compression == CompressionAlgorithm::Uncompressed
    &&& c.default_encryption == EncryptionAlgorithm::Plaintext
    &&& c.max_connections == 10000
    &&& c.handshake_timeout == 10_000
    &&& c.max_handshake_concurrency == 1024
    &&& c.write_timeout == 10_000
    &&& c.fanout_concurrency == 256
    &&& c.connection_timeout == 300_000
    &&& c.default_heartbeat == (HeartbeatConfig {
        check_interval: 10_000,
        connection_timeout: 30_000,
        enable_auto_cleanup: true,
    })
    &&& !c.tls.enabled && c.tls.cert_path is None && c.tls.key_path is None
    &&& c.max_message_size == 10 * 1024 * 1024
    &&& c.device_conflict_strategy == DeviceConflictStrategy::AllowMultiple
    &&& !c.auth_enabled
    &&& c.auth_timeout == 30_000
}

impl Default for ServerConfig {
    /// The default configuration, listening on `0.0.0.0:8080`.
    fn default() -> (c: ServerConfig)
        ensures
            c.bind_address@ == "0.0.0.0:8080"@,
            has_default_settings(c),
    {
        ServerConfig::new(String::from_str("0.0.0.0:8080"))
    }
}

impl ServerConfig {
    /// The default configuration listening on `bind_address`.
    pub fn new(bind_address: String) -> (c: ServerConfig)
        ensures
            c.bind_address == bind_address,
            has_default_settings(c),
    {
        ServerConfig {
            bind_address,
            transport: TransportProtocol::WebSocket,
            transports: None,
            protocol_addresses: None,
            default_serialization_format: SerializationFormat::Protobuf,
            default_compression: CompressionAlgorithm::Uncompressed,
            default_encryption: EncryptionAlgorithm::Plaintext,
            max_connections: 10000,
            handshake_timeout: 10_000,
            max_handshake_concurrency: 1024,
            write_timeout: 10_000,
            fanout_concurrency: 256,
            connection_timeout: 300_000,
            default_heartbeat: HeartbeatConfig::default(),
            tls: TlsConfig::none(),
            max_message_size: 10 * 1024 * 1024,
            device_conflict_strategy: DeviceConflictStrategy::default(),
            auth_enabled: false,
            auth_timeout: 30_000,
        }
    }

    /// Uses WebSocket.
    pub fn websocket(self) -> (c: ServerConfig)
        ensures
            c == (ServerConfig { transport: TransportProtocol::WebSocket, ..self }),
    {
        ServerConfig { transport: TransportProtocol::WebSocket, ..self }
    }

    /// Uses QUIC.
    pub fn quic(self) -> (c: ServerConfig)
        ensures
            c == (ServerConfig { transport: TransportProtocol::QUIC, ..self }),
    {
        ServerConfig { transport: TransportProtocol::QUIC, ..self }
    }

    /// Uses TCP.
    pub fn tcp(self) -> (c: ServerConfig)
        ensures
            c == (ServerConfig { transport: TransportProtocol::TCP, ..self }),
    {
        ServerConfig { transport: TransportProtocol::TCP, ..self }
    }

    /// Sets the default serialization format.
    pub fn with_format(self, format: SerializationFormat) -> (c: ServerConfig)
        ensures
            c == (ServerConfig { default_serialization_format: format, ..self }),
    {
        ServerConfig { default_serialization_format: format, ..self }
    }

    /// Sets the default compression.
    pub fn with_compression(self, compression: CompressionAlgorithm) -> (c: ServerConfig)
        ensures
            c == (ServerConfig { default_compression: compression, ..self }),
    {
        ServerConfig { default_compression: compression, ..self }
    }

    /// Sets the default encryption.
    pub fn with_encryption(self, encryption: EncryptionAlgorithm) -> (c: ServerConfig)
        ensures
            c == (ServerConfig { default_encryption: encryption, ..self }),
    {
        ServerConfig { default_encryption: encryption, ..self }
    }

    /// Sets the connection limit.
    pub fn with_max_connections(self, max: usize) -> (c: ServerConfig)
        ensures
            c == (ServerConfig { max_connections: max, ..self }),
    {
        ServerConfig { max_connections: max, ..self }
    }

    /// Sets the handshake timeout (milliseconds).
    pub fn with_handshake_timeout(self, timeout: u64) -> (c: ServerConfig)
        ensures
            c == (ServerConfig { handshake_timeout: timeout, ..self }),
    {
        ServerConfig { handshake_timeout: timeout, ..self }
    }

    /// Sets the handshake concurrency; at least 1.
    pub fn with_max_handshake_concurrency(self, max: usize) -> (c: ServerConfig)
        ensures
            c == (ServerConfig { max_handshake_concurrency: if max >= 1 { max } else { 1 }, ..self }),
    {
        let v = if max >= 1 { max } else { 1 };
        ServerConfig { max_handshake_concurrency: v, ..self }
    }

    /// Sets the write timeout (milliseconds).
    pub fn with_write_timeout(self, timeout: u64) -> (c: ServerConfig)
        ensures
            c == (ServerConfig { write_timeout: timeout, ..self }),
    {
        ServerConfig { write_timeout: timeout, ..self }
    }

    /// Sets the fan-out concurrency; at least 1.
    pub fn with_fanout_concurrency(self, max: usize) -> (c: ServerConfig)
        ensures
            c == (ServerConfig { fanout_concurrency: if max >= 1 { max } else { 1 }, ..self }),
    {
        let v = if max >= 1 { max } else { 1 };
        ServerConfig { fanout_concurrency: v, ..self }
    }

    /// Listens on several protocols at once.
    pub fn with_protocols(self, protocols: Vec<TransportProtocol>) -> (c: ServerConfig)
        ensures
            c == (ServerConfig { transports: Some(protocols), ..self }),
    {
        ServerConfig { transports: Some(protocols), ..self }
    }

    /// Sets the listen address of one protocol, replacing an earlier one.
    pub fn with_protocol_address(self, protocol: TransportProtocol, address: String) -> (c: ServerConfig)
        ensures
            c.protocol_addresses is Some,
            addresses_view(c.protocol_addresses.unwrap()@) == address_insert(
                match self.protocol_addresses {
                    Some(a) => addresses_view(a@),
                    None => Seq::empty(),
                },
                protocol,
                address@,
            ),
            c == (ServerConfig { protocol_addresses: c.protocol_addresses, ..self }),
    {
        let mut s = self;
        let mut addresses = match s.protocol_addresses {
            Some(a) => a,
            None => Vec::new(),
        };
        insert_address(&mut addresses, protocol, address);
        ServerConfig { protocol_addresses: Some(addresses), ..s }
    }

    /// Sets all per-protocol addresses at once.
    pub fn with_protocol_addresses(self, addresses: ProtocolAddresses) -> (c: ServerConfig)
        ensures
            c == (ServerConfig { protocol_addresses: Some(addresses), ..self }),
    {
        ServerConfig { protocol_addresses: Some(addresses), ..self }
    }

    /// The bind address of `protocol`: its own address when configured,
    /// else the common one, with any client scheme removed.
    pub fn get_protocol_address(&self, protocol: &TransportProtocol) -> (r: String)
        ensures
            r@ == server_bind_address(
                match self.protocol_addresses {
                    Some(a) => match address_of(addresses_view(a@), *protocol) {
                        Some(v) => v,
                        None => self.bind_address@,
                    },
                    None => self.bind_address@,
                },
            ),
    {
        let endpoint: &str = match &self.protocol_addresses {
            Some(addresses) => match find_address(addresses, *protocol) {
                Some(v) => v.as_str(),
                None => self.bind_address.as_str(),
            },
            None => self.bind_address.as_str(),
        };
        TransportProtocol::normalize_server_bind_address(endpoint)
    }

    /// Sets the default heartbeat.
    pub fn with_heartbeat(self, heartbeat: HeartbeatConfig) -> (c: ServerConfig)
        ensures
            c == (ServerConfig { default_heartbeat: heartbeat, ..self }),
    {
        ServerConfig { default_heartbeat: heartbeat, ..self }
    }

    /// Sets TLS.
    pub fn with_tls(self, tls: TlsConfig) -> (c: ServerConfig)
        ensures
            c == (ServerConfig { tls, ..self }),
    {
        ServerConfig { tls, ..self }
    }

    /// Sets the idle timeout (milliseconds).
    pub fn with_connection_timeout(self, timeout: u64) -> (c: ServerConfig)
        ensures
            c == (ServerConfig { connection_timeout: timeout, ..self }),
    {
        ServerConfig { connection_timeout: timeout, ..self }
    }

    /// The protocols to listen on: the list when set, else the single transport.
    pub fn get_protocols(&self) -> (r: Vec<TransportProtocol>)
        ensures
            r@ == match self.transports {
                Some(v) => v@,
                None => seq![self.transport],
            },
    {
        match &self.transports {
            Some(protocols) => copy_protocols(protocols),
            None => {
                let mut v = Vec::new();
                v.push(self.transport);
                v
            },
        }
    }

    /// Sets the multi-device policy.
    pub fn with_device_conflict_strategy(self, strategy: DeviceConflictStrategy) -> (c: ServerConfig)
        ensures
            c == (ServerConfig { device_conflict_strategy: strategy, ..self }),
    {
        ServerConfig { device_conflict_strategy: strategy, ..self }
    }

    /// Requires connections to authenticate.
    pub fn enable_auth(self) -> (c: ServerConfig)
        ensures
            c == (ServerConfig { auth_enabled: true, ..self }),
    {
        ServerConfig { auth_enabled: true, ..self }
    }

    /// Lets connections exchange messages without authenticating.
    pub fn disable_auth(self) -> (c: ServerConfig)
        ensures
            c == (ServerConfig { auth_enabled: false, ..self }),
    {
        ServerConfig { auth_enabled: false, ..self }
    }

    /// Sets the time allowed for authentication (milliseconds).
    pub fn with_auth_timeout(self, timeout: u64) -> (c: ServerConfig)
        ensures
            c == (ServerConfig { auth_timeout: timeout, ..self }),
    {
        ServerConfig { auth_timeout: timeout, ..self }
    }
}

fn copy_protocols(v: &Vec<TransportProtocol>) -> (r: Vec<TransportProtocol>)
    ensures
        r@ == v@,
{
    let mut r = Vec::new();
    let mut i: usize = 0;
    while i < v.len()
        invariant
            i <= v@.len(),
            r@ == v@.subrange(0, i as int),
        decreases v@.len() - i,
    {
        r.push(v[i]);
        assert(r@ =~= v@.subrange(0, i + 1));
        i += 1;
    }
    assert(v@.subrange(0, v@.len() as int) =~= v@);
    r
}

fn find_address<'a>(addresses: &'a ProtocolAddresses, protocol: TransportProtocol) -> (r: Option<&'a String>)
    ensures
        match r {
            Some(v) => address_of(addresses_view(addresses@), protocol) == Some(v@),
            None => address_of(addresses_view(addresses@), protocol) is None,
        },
{
    let ghost a = addresses_view(addresses@);
    let mut i: usize = 0;
    assert(a.skip(0) =~= a);
    while i < addresses.len()
        invariant
            i <= addresses@.len(),
            a == addresses_view(addresses@),
            address_of(a, protocol) == address_of(a.skip(i as int), protocol),
        decreases addresses@.len() - i,
    {
        proof {
            assert(a.skip(i as int).drop_first() =~= a.skip(i + 1));
        }
        if addresses[i].0 == protocol {
            return Some(&addresses[i].1);
        }
        i += 1;
    }
    None
}

proof fn lemma_address_insert_at(a: Seq<(TransportProtocol, Seq<char>)>, p: TransportProtocol, v: Seq<char>, i: int)
    requires
        0 <= i < a.len(),
        a[i].0 == p,
        forall|j: int| 0 <= j < i ==> a[j].0 != p,
    ensures
        address_insert(a, p, v) == a.update(i, (p, v)),
    decreases a.len(),
{
    if i == 0 {
        assert(seq![(p, v)] + a.drop_first() =~= a.update(0, (p, v)));
    } else {
        lemma_address_insert_at(a.drop_first(), p, v, i - 1);
        assert(seq![a[0]] + a.drop_first().update(i - 1, (p, v)) =~= a.update(i, (p, v)));
    }
}

proof fn lemma_address_insert_absent(a: Seq<(TransportProtocol, Seq<char>)>, p: TransportProtocol, v: Seq<char>)
    requires
        forall|j: int| 0 <= j < a.len() ==> a[j].0 != p,
    ensures
        address_insert(a, p, v) == a.push((p, v)),
    decreases a.len(),
{
    if a.len() > 0 {
        lemma_address_insert_absent(a.drop_first(), p, v);
        assert(seq![a[0]] + a.drop_first().push((p, v)) =~= a.push((p, v)));
    } else {
        assert(seq![(p, v)] =~= a.push((p, v)));
    }
}

fn insert_address(addresses: &mut ProtocolAddresses, protocol: TransportProtocol, address: String)
    ensures
        addresses_view(final(addresses)@) == address_insert(addresses_view(old(addresses)@), protocol, address@),
{
    let ghost a0 = addresses_view(addresses@);
    let mut i: usize = 0;
    while i < addresses.len()
        invariant
            i <= addresses@.len(),
            addresses_view(addresses@) == a0,
            a0 == addresses_view(old(addresses)@),
            forall|j: int| 0 <= j < i ==> a0[j].0 != protocol,
        decreases addresses@.len() - i,
    {
        if addresses[i].0 == protocol {
            proof {
                lemma_address_insert_at(a0, protocol, address@, i as int);
            }
            addresses.set(i, (protocol, address));
            assert(addresses_view(addresses@) =~= a0.update(i as int, (protocol, address@)));
            return ;
        }
        i += 1;
    }
    proof {
        lemma_address_insert_absent(a0, protocol, address@);
    }
    addresses.push((protocol, address));
    assert(addresses_view(addresses@) =~= a0.push((protocol, address@)));
}


/// Per-protocol addresses read-after-write: after setting the address of
/// `p`, it reads back; other protocols read as before.
pub proof fn lemma_protocol_address_read_after_write(
    a: Seq<(TransportProtocol, Seq<char>)>,
    p: TransportProtocol,
    v: Seq<char>,
    other: TransportProtocol,
)
    ensures
        address_of(address_insert(a, p, v), p) == Some(v),
        other != p ==> address_of(address_insert(a, p, v), other) == address_of(a, other),
    decreases a.len(),
{
    if a.len() == 0 {
        assert(address_insert(a, p, v).drop_first() =~= Seq::<(TransportProtocol, Seq<char>)>::empty());
        assert(address_insert(a, p, v)[0] == (p, v));
        assert(address_of(address_insert(a, p, v).drop_first(), other) == None::<Seq<char>>);
    } else if a[0].0 == p {
        assert((seq![(p, v)] + a.drop_first()).drop_first() =~= a.drop_first());
        assert((seq![(p, v)] + a.drop_first())[0] == (p, v));
        if other != p {
            assert(address_of(address_insert(a, p, v), other) == address_of(a.drop_first(), other));
        }
    } else {
        lemma_protocol_address_read_after_write(a.drop_first(), p, v, other);
        assert((seq![a[0]] + address_insert(a.drop_first(), p, v)).drop_first() =~= address_insert(a.drop_first(), p, v));
        assert((seq![a[0]] + address_insert(a.drop_first(), p, v))[0] == a[0]);
        if other != p && a[0].0 != other {
            assert(address_of(address_insert(a, p, v), other) == address_of(address_insert(a.drop_first(), p, v), other));
        }
    }
}

} // verus!
