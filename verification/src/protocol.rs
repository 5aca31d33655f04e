//! Wire-level vocabulary: serialization formats, codecs, transports and the
//! frame/command structure exchanged with clients.

use crate::strings::str_eq;
use vstd::prelude::*;
use vstd::utf8::encode_utf8;

verus! {

/// How frames are encoded on the wire.
#[derive(Debug, Clone, Copy, PartialEq, Eq, Structural, Hash)]
pub enum SerializationFormat {
    Protobuf,
    Json,
}

/// Frame compression.
#[derive(Debug, Clone, Copy, PartialEq, Eq, Structural, Hash)]
pub enum CompressionAlgorithm {
    /// No compression (named `none` on the wire).
    Uncompressed,
    Gzip,
}

/// Spec of [`CompressionAlgorithm::from_str`]: its canonical lowercase name.
pub open spec fn compression_from_name(s: Seq<char>) -> Option<CompressionAlgorithm> {
    if s == "none"@ {
        Some(CompressionAlgorithm::Uncompressed)
    } else if s == "gzip"@ {
        Some(CompressionAlgorithm::Gzip)
    } else {
        None
    }
}

/// Spec of [`CompressionAlgorithm::as_str`].
pub open spec fn compression_name(c: CompressionAlgorithm) -> Seq<char> {
    match c {
        CompressionAlgorithm::Uncompressed => "none"@,
        CompressionAlgorithm::Gzip => "gzip"@,
    }
}

impl CompressionAlgorithm {
    /// Parses a compression name (`none`, `gzip`).
    pub fn from_str(s: &str) -> (r: Option<CompressionAlgorithm>)
        ensures
            r == compression_from_name(s@),
    {
        if str_eq(s, "none") {
            Some(CompressionAlgorithm::Uncompressed)
        } else if str_eq(s, "gzip") {
            Some(CompressionAlgorithm::Gzip)
        } else {
            None
        }
    }

    /// The canonical name of the algorithm.
    pub fn as_str(&self) -> (s: &'static str)
        ensures
            s@ == compression_name(*self),
    {
        match self {
            CompressionAlgorithm::Uncompressed => "none",
            CompressionAlgorithm::Gzip => "gzip",
        }
    }
}

/// Frame encryption.
#[derive(Debug, Clone, Copy, PartialEq, Eq, Structural, Hash)]
pub enum EncryptionAlgorithm {
    /// No encryption (named `none` on the wire).
    Plaintext,
    Aes256Gcm,
}

/// Spec of [`EncryptionAlgorithm::from_str`].
pub open spec fn encryption_from_name(s: Seq<char>) -> Option<EncryptionAlgorithm> {
    if s == "none"@ {
        Some(EncryptionAlgorithm::Plaintext)
    } else if s == "aes256gcm"@ {
        Some(EncryptionAlgorithm::Aes256Gcm)
    } else {
        None
    }
}

/// Spec of [`EncryptionAlgorithm::as_str`].
pub open spec fn encryption_name(e: EncryptionAlgorithm) -> Seq<char> {
    match e {
        EncryptionAlgorithm::Plaintext => "none"@,
        EncryptionAlgorithm::Aes256Gcm => "aes256gcm"@,
    }
}

impl EncryptionAlgorithm {
    /// Parses an encryption name (`none`, `aes256gcm`).
    pub fn from_str(s: &str) -> (r: Option<EncryptionAlgorithm>)
        ensures
            r == encryption_from_name(s@),
    {
        if str_eq(s, "none") {
            Some(EncryptionAlgorithm::Plaintext)
        } else if str_eq(s, "aes256gcm") {
            Some(EncryptionAlgorithm::Aes256Gcm)
        } else {
            None
        }
    }

    /// The canonical name of the algorithm.
    pub fn as_str(&self) -> (s: &'static str)
        ensures
            s@ == encryption_name(*self),
    {
        match self {
            EncryptionAlgorithm::Plaintext => "none",
            EncryptionAlgorithm::Aes256Gcm => "aes256gcm",
        }
    }
}

/// Transport a server listens on.
#[derive(Debug, Clone, Copy, PartialEq, Eq, Structural, Hash)]
pub enum TransportProtocol {
    WebSocket,
    QUIC,
    TCP,
}

/// Whether `"://"` starts at position `i` of `s`.
pub open spec fn scheme_separator_at(s: Seq<char>, i: int) -> bool {
    0 <= i && i + 3 <= s.len() && s[i] == ':' && s[i + 1] == '/' && s[i + 2] == '/'
}

/// A bind address derived from an endpoint: whatever follows the first
/// `"://"` (a client scheme such as `ws://`), or the endpoint itself.
pub open spec fn server_bind_address(s: Seq<char>) -> Seq<char> {
    if exists|i: int| scheme_separator_at(s, i) {
        let i = choose|i: int|
            scheme_separator_at(s, i) && forall|j: int| 0 <= j < i ==> !scheme_separator_at(s, j);
        s.skip(i + 3)
    } else {
        s
    }
}

impl TransportProtocol {
    /// Drops a client scheme (`ws://`, `quic://`, `tcp://`, ...) from an
    /// endpoint so that it can be bound by a listener.
    pub fn normalize_server_bind_address(endpoint: &str) -> (r: String)
        ensures
            r@ == server_bind_address(endpoint@),
    {
        let n = endpoint.unicode_len();
        let mut i: usize = 0;
        while n >= 3 && i <= n - 3
            invariant
                n == endpoint@.len(),
                i <= n,
                forall|j: int| 0 <= j < i ==> !scheme_separator_at(endpoint@, j),
            decreases n - i,
        {
            if endpoint.get_char(i) == ':' && endpoint.get_char(i + 1) == '/' && endpoint.get_char(
                i + 2,
            ) == '/' {
                let ghost s = endpoint@;
                proof {
                    assert(scheme_separator_at(s, i as int));
                    let k = choose|k: int|
                        scheme_separator_at(s, k) && forall|j: int|
                            0 <= j < k ==> !scheme_separator_at(s, j);
                    assert(k == i) by {
                        if k < i {
                            assert(!scheme_separator_at(s, k));
                        } else if k > i {
                            assert(!scheme_separator_at(s, i as int));
                        }
                    }
                }
                return endpoint.substring_char(i + 3, n).to_owned();
            }
            i += 1;
        }
        proof {
            assert forall|j: int| !scheme_separator_at(endpoint@, j) by {
                if 0 <= j < i {
                } else if j >= i {
                    assert(j + 3 > n);
                }
            }
        }
        endpoint.to_owned()
    }
}

/// Delivery guarantee requested for a frame.
#[derive(Debug, Clone, Copy, PartialEq, Eq, Structural, Hash)]
pub enum Reliability {
    BestEffort,
    AtLeastOnce,
    ExactlyOnce,
}

/// Key/value metadata carried by commands, values as raw bytes.
pub type Metadata = Vec<(String, Vec<u8>)>;

/// The view of [`Metadata`]: its entries in order.
pub open spec fn metadata_view(m: Seq<(String, Vec<u8>)>) -> Seq<(Seq<char>, Seq<u8>)> {
    m.map_values(|e: (String, Vec<u8>)| (e.0@, e.1@))
}

/// Kind of a system (control) command.
#[derive(Debug, Clone, Copy, PartialEq, Eq, Structural, Hash)]
pub enum SystemCommandType {
    Connect,
    ConnectAck,
    NegotiationReady,
    Ping,
    Pong,
    Event,
    Kicked,
    Error,
    Close,
}

/// A control command: connection negotiation, heartbeat, shutdown.
#[derive(Debug, Clone)]
pub struct SystemCommand {
    pub command_type: SystemCommandType,
    pub serialization_format: SerializationFormat,
    pub metadata: Metadata,
}

/// Kind of a payload (application) command, as the wire carries it: the
/// known kinds, or a value no kind has.
#[derive(Debug, Clone, Copy, PartialEq, Eq, Structural, Hash)]
pub enum PayloadType {
    Unspecified,
    Message,
    Event,
    Ack,
    Data,
    Unrecognized(i32),
}

/// An application message.
#[derive(Debug, Clone)]
pub struct PayloadCommand {
    pub payload_type: PayloadType,
    pub message_id: String,
    pub payload: Vec<u8>,
    pub metadata: Metadata,
}

/// A notification pushed to or from a client.
#[derive(Debug, Clone)]
pub struct NotificationCommand {
    pub payload: Vec<u8>,
    pub metadata: Metadata,
}

/// An application-defined command, by name.
#[derive(Debug, Clone)]
pub struct CustomCommand {
    pub name: String,
    pub payload: Vec<u8>,
    pub metadata: Metadata,
}

/// The families of commands a frame can carry.
#[derive(Debug, Clone)]
pub enum CommandKind {
    System(SystemCommand),
    Payload(PayloadCommand),
    Notification(NotificationCommand),
    Custom(CustomCommand),
}

/// The command of a frame.
#[derive(Debug, Clone)]
pub struct Command {
    pub kind: Option<CommandKind>,
}

/// The unit exchanged between client and server.
#[derive(Debug, Clone)]
pub struct Frame {
    pub message_id: String,
    pub command: Option<Command>,
    pub metadata: Metadata,
    pub reliability: Reliability,
    pub timestamp: i64,
}

/// The system command carried by a frame, if any.
pub open spec fn frame_system_command(f: Frame) -> Option<SystemCommand> {
    match f.command {
        Some(cmd) => match cmd.kind {
            Some(CommandKind::System(s)) => Some(s),
            _ => None,
        },
        None => None,
    }
}

/// A CONNECT command proposing `format` and carrying `metadata`.
pub fn connect(format: SerializationFormat, metadata: Metadata) -> (c: SystemCommand)
    ensures
        c.command_type == SystemCommandType::Connect,
        c.serialization_format == format,
        c.metadata == metadata,
{
    SystemCommand { command_type: SystemCommandType::Connect, serialization_format: format, metadata }
}

/// A heartbeat PING command.
pub fn ping() -> (c: SystemCommand)
    ensures
        c.command_type == SystemCommandType::Ping,
        c.metadata@.len() == 0,
{
    SystemCommand {
        command_type: SystemCommandType::Ping,
        serialization_format: SerializationFormat::Json,
        metadata: Vec::new(),
    }
}

/// A heartbeat PONG command.
pub fn pong() -> (c: SystemCommand)
    ensures
        c.command_type == SystemCommandType::Pong,
        c.metadata@.len() == 0,
{
    SystemCommand {
        command_type: SystemCommandType::Pong,
        serialization_format: SerializationFormat::Json,
        metadata: Vec::new(),
    }
}

/// A frame carrying a system command.
pub fn frame_with_system_command(cmd: SystemCommand, reliability: Reliability) -> (f: Frame)
    ensures
        frame_system_command(f) == Some(cmd),
        f.reliability == reliability,
        f.metadata@.len() == 0,
{
    Frame {
        message_id: String::new(),
        command: Some(Command { kind: Some(CommandKind::System(cmd)) }),
        metadata: Vec::new(),
        reliability,
        timestamp: 0,
    }
}

/// The system command carried by `frame`, if any.
pub fn connect_system_command(frame: &Frame) -> (r: Option<&SystemCommand>)
    ensures
        match r {
            Some(s) => frame_system_command(*frame) == Some(*s),
            None => frame_system_command(*frame) is None,
        },
{
    match &frame.command {
        Some(cmd) => match &cmd.kind {
            Some(CommandKind::System(s)) => Some(s),
            _ => None,
        },
        None => None,
    }
}


/// Sets `k` to `v` in metadata: the first entry with key `k` is replaced,
/// or an entry appended.
pub open spec fn meta_insert(m: Seq<(Seq<char>, Seq<u8>)>, k: Seq<char>, v: Seq<u8>) -> Seq<(Seq<char>, Seq<u8>)>
    decreases m.len(),
{
    if m.len() == 0 {
        seq![(k, v)]
    } else if m[0].0 == k {
        seq![(k, v)] + m.drop_first()
    } else {
        seq![m[0]] + meta_insert(m.drop_first(), k, v)
    }
}

/// Inserts every entry of `extra`, in order, into `acc`.
pub open spec fn meta_insert_all(acc: Seq<(Seq<char>, Seq<u8>)>, extra: Seq<(Seq<char>, Seq<u8>)>) -> Seq<(Seq<char>, Seq<u8>)>
    decreases extra.len(),
{
    if extra.len() == 0 {
        acc
    } else {
        let r = meta_insert_all(acc, extra.drop_last());
        meta_insert(r, extra.last().0, extra.last().1)
    }
}

proof fn lemma_meta_insert_at(m: Seq<(Seq<char>, Seq<u8>)>, k: Seq<char>, v: Seq<u8>, i: int)
    requires
        0 <= i < m.len(),
        m[i].0 == k,
        forall|j: int| 0 <= j < i ==> m[j].0 != k,
    ensures
        meta_insert(m, k, v) == m.update(i, (k, v)),
    decreases m.len(),
{
    if i == 0 {
        assert(seq![(k, v)] + m.drop_first() =~= m.update(0, (k, v)));
    } else {
        lemma_meta_insert_at(m.drop_first(), k, v, i - 1);
        assert(seq![m[0]] + m.drop_first().update(i - 1, (k, v)) =~= m.update(i, (k, v)));
    }
}

proof fn lemma_meta_insert_absent(m: Seq<(Seq<char>, Seq<u8>)>, k: Seq<char>, v: Seq<u8>)
    requires
        forall|j: int| 0 <= j < m.len() ==> m[j].0 != k,
    ensures
        meta_insert(m, k, v) == m.push((k, v)),
    decreases m.len(),
{
    if m.len() > 0 {
        lemma_meta_insert_absent(m.drop_first(), k, v);
        assert(seq![m[0]] + m.drop_first().push((k, v)) =~= m.push((k, v)));
    } else {
        assert(seq![(k, v)] =~= m.push((k, v)));
    }
}

/// Sets `key` to `value` in `metadata` (see [`meta_insert`]).
pub fn metadata_insert(metadata: &mut Metadata, key: String, value: Vec<u8>)
    ensures
        metadata_view(final(metadata)@) == meta_insert(metadata_view(old(metadata)@), key@, value@),
{
    let ghost m0 = metadata_view(metadata@);
    let mut i: usize = 0;
    while i < metadata.len()
        invariant
            i <= metadata@.len(),
            metadata_view(metadata@) == m0,
            m0 == metadata_view(old(metadata)@),
            forall|j: int| 0 <= j < i ==> m0[j].0 != key@,
        decreases metadata@.len() - i,
    {
        if str_eq(metadata[i].0.as_str(), key.as_str()) {
            proof {
                lemma_meta_insert_at(m0, key@, value@, i as int);
            }
            let ghost kv = (key@, value@);
            metadata.set(i, (key, value));
            assert(metadata_view(metadata@) =~= m0.update(i as int, kv));
            return ;
        }
        i += 1;
    }
    proof {
        lemma_meta_insert_absent(m0, key@, value@);
    }
    let ghost kv = (key@, value@);
    metadata.push((key, value));
    assert(metadata_view(metadata@) =~= m0.push(kv));
}

/// The metadata of a CONNECT_ACK: `metadata` with the confirmed compression
/// and encryption names set.
pub open spec fn connect_ack_metadata(
    metadata: Seq<(Seq<char>, Seq<u8>)>,
    compression: Seq<char>,
    encryption: Seq<char>,
) -> Seq<(Seq<char>, Seq<u8>)> {
    meta_insert(
        meta_insert(metadata, "compression"@, encode_utf8(compression)),
        "encryption"@,
        encode_utf8(encryption),
    )
}

/// A CONNECT_ACK confirming `format`, `compression` and `encryption`,
/// carrying `metadata` besides.
pub fn connect_ack(format: SerializationFormat, compression: &str, encryption: &str, metadata: Metadata) -> (c: SystemCommand)
    ensures
        c.command_type == SystemCommandType::ConnectAck,
        c.serialization_format == format,
        metadata_view(c.metadata@) == connect_ack_metadata(metadata_view(metadata@), compression@, encryption@),
{
    let mut m = metadata;
    metadata_insert(&mut m, String::from_str("compression"), compression.as_bytes_vec());
    metadata_insert(&mut m, String::from_str("encryption"), encryption.as_bytes_vec());
    SystemCommand { command_type: SystemCommandType::ConnectAck, serialization_format: format, metadata: m }
}


/// The metadata of a KICKED command: `metadata` with the reason text set
/// under `message`.
pub open spec fn kicked_metadata(reason: Seq<char>, metadata: Seq<(Seq<char>, Seq<u8>)>) -> Seq<(Seq<char>, Seq<u8>)> {
    meta_insert(metadata, "message"@, encode_utf8(reason))
}

/// A KICKED command telling a client why it is being disconnected.
pub fn kicked(reason: String, metadata: Option<Metadata>) -> (c: SystemCommand)
    ensures
        c.command_type == SystemCommandType::Kicked,
        c.serialization_format == SerializationFormat::Json,
        metadata_view(c.metadata@) == kicked_metadata(
            reason@,
            match metadata {
                Some(m) => metadata_view(m@),
                None => Seq::empty(),
            },
        ),
{
    let mut m = match metadata {
        Some(m) => m,
        None => {
            let e: Metadata = Vec::new();
            assert(metadata_view(e@) =~= Seq::empty());
            e
        },
    };
    metadata_insert(&mut m, String::from_str("message"), reason.as_str().as_bytes_vec());
    SystemCommand { command_type: SystemCommandType::Kicked, serialization_format: SerializationFormat::Json, metadata: m }
}


/// The payload command carried by a frame, if any.
pub open spec fn frame_payload_command(f: Frame) -> Option<PayloadCommand> {
    match f.command {
        Some(cmd) => match cmd.kind {
            Some(CommandKind::Payload(p)) => Some(p),
            _ => None,
        },
        None => None,
    }
}

/// An acknowledgement of message `message_id`, carrying `metadata` (none if
/// absent) and no payload.
pub fn ack_message(message_id: String, metadata: Option<Metadata>) -> (c: PayloadCommand)
    ensures
        c.payload_type == PayloadType::Ack,
        c.message_id == message_id,
        c.payload@.len() == 0,
        metadata_view(c.metadata@) == match metadata {
            Some(m) => metadata_view(m@),
            None => Seq::empty(),
        },
{
    let m = match metadata {
        Some(m) => m,
        None => {
            let e: Metadata = Vec::new();
            assert(metadata_view(e@) =~= Seq::empty());
            e
        },
    };
    PayloadCommand { payload_type: PayloadType::Ack, message_id, payload: Vec::new(), metadata: m }
}

/// A frame carrying a payload command, under the command's message id.
pub fn frame_with_payload_command(cmd: PayloadCommand, reliability: Reliability) -> (f: Frame)
    ensures
        frame_payload_command(f) == Some(cmd),
        f.message_id@ == cmd.message_id@,
        f.reliability == reliability,
        f.metadata@.len() == 0,
{
    let id = cmd.message_id.clone();
    Frame {
        message_id: id,
        command: Some(Command { kind: Some(CommandKind::Payload(cmd)) }),
        metadata: Vec::new(),
        reliability,
        timestamp: 0,
    }
}

} // verus!
