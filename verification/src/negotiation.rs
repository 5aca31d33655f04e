//! CONNECT negotiation: reads the client's requested serialization format,
//! compression, encryption, device and user from the CONNECT metadata.

use crate::device::{
    opt_view, pairs_insert, platform_from_name, DeviceInfo, DeviceInfoView, DevicePlatform,
    PlatformView,
};
use crate::error::FlareError;
use crate::protocol::{
    compression_from_name, compression_name, connect_ack, connect_ack_metadata,
    connect_system_command, encryption_from_name, encryption_name, frame_system_command,
    meta_insert, meta_insert_all, metadata_insert, metadata_view, SystemCommand, CompressionAlgorithm, EncryptionAlgorithm, Frame, Metadata, SerializationFormat,
    SystemCommandType,
};
use crate::strings::{ascii_lower_seq, eq_ignore_ascii_case, str_eq};
use vstd::prelude::*;
use vstd::utf8::{decode_utf8, encode_utf8, encode_utf8_decode_utf8, encode_utf8_valid_utf8, valid_utf8};

verus! {

/// What the server learned from a client's CONNECT command.
#[derive(Debug, Clone)]
pub struct NegotiationResult {
    /// Serialization format requested by the client.
    pub serialization_format: SerializationFormat,
    /// Whether the client named a format explicitly.
    pub serialization_format_specified: bool,
    /// Compression requested by the client.
    pub compression: CompressionAlgorithm,
    /// Encryption requested by the client.
    pub encryption: EncryptionAlgorithm,
    /// Whether the client insists on its format.
    pub is_forced: bool,
    /// Device information, when the client sent a device id.
    pub device_info: Option<DeviceInfo>,
    /// User id, when the client sent one.
    pub user_id: Option<String>,
}

/// The view of a [`NegotiationResult`].
pub struct NegotiationView {
    pub serialization_format: SerializationFormat,
    pub serialization_format_specified: bool,
    pub compression: CompressionAlgorithm,
    pub encryption: EncryptionAlgorithm,
    pub is_forced: bool,
    pub device_info: Option<DeviceInfoView>,
    pub user_id: Option<Seq<char>>,
}

/// The view of an optional device.
pub open spec fn opt_device_view(d: Option<DeviceInfo>) -> Option<DeviceInfoView> {
    match d {
        Some(v) => Some(v@),
        None => None,
    }
}

impl View for NegotiationResult {
    type V = NegotiationView;

    open spec fn view(&self) -> NegotiationView {
        NegotiationView {
            serialization_format: self.serialization_format,
            serialization_format_specified: self.serialization_format_specified,
            compression: self.compression,
            encryption: self.encryption,
            is_forced: self.is_forced,
            device_info: opt_device_view(self.device_info),
            user_id: opt_view(self.user_id),
        }
    }
}

/// The negotiation assumed when the client asked for nothing: JSON,
/// unspecified, no compression, no encryption, not forced, no device or user.
pub open spec fn default_negotiation() -> NegotiationView {
    NegotiationView {
        serialization_format: SerializationFormat::Json,
        serialization_format_specified: false,
        compression: CompressionAlgorithm::Uncompressed,
        encryption: EncryptionAlgorithm::Plaintext,
        is_forced: false,
        device_info: None,
        user_id: None,
    }
}

impl NegotiationResult {
    /// The default negotiation (see [`default_negotiation`]).
    pub fn default() -> (r: NegotiationResult)
        ensures
            r@ == default_negotiation(),
    {
        NegotiationResult {
            serialization_format: SerializationFormat::Json,
            serialization_format_specified: false,
            compression: CompressionAlgorithm::Uncompressed,
            encryption: EncryptionAlgorithm::Plaintext,
            is_forced: false,
            device_info: None,
            user_id: None,
        }
    }
}

// ---------------------------------------------------------------------------
// Metadata access

/// The bytes of the first entry with key `k`.
pub open spec fn meta_lookup(m: Seq<(Seq<char>, Seq<u8>)>, k: Seq<char>) -> Option<Seq<u8>>
    decreases m.len(),
{
    if m.len() == 0 {
        None
    } else if m[0].0 == k {
        Some(m[0].1)
    } else {
        meta_lookup(m.drop_first(), k)
    }
}

/// Bytes read as UTF-8 text, when they are valid UTF-8.
pub open spec fn utf8_text(b: Seq<u8>) -> Option<Seq<char>> {
    if valid_utf8(b) {
        Some(decode_utf8(b))
    } else {
        None
    }
}

/// The text value stored under `k`: present and valid UTF-8.
pub open spec fn meta_text(m: Seq<(Seq<char>, Seq<u8>)>, k: Seq<char>) -> Option<Seq<char>> {
    match meta_lookup(m, k) {
        Some(b) => utf8_text(b),
        None => None,
    }
}

/// The decoder's description of why `b` is not valid UTF-8 (the text of
/// the error `String::from_utf8` reports).
pub uninterp spec fn utf8_fault_text(b: Seq<u8>) -> Seq<char>;

/// `String::from_utf8`: the bytes as a string when they are valid UTF-8,
/// else the text of the decoder's error.
#[verifier::external_body]
pub(crate) fn utf8_to_string(bytes: &[u8]) -> (r: Result<String, String>)
    ensures
        r is Ok <==> valid_utf8(bytes@),
        r is Ok ==> r->Ok_0@ == decode_utf8(bytes@),
        r is Err ==> r->Err_0@ == utf8_fault_text(bytes@),
{
    match String::from_utf8(bytes.to_vec()) {
        Ok(s) => Ok(s),
        Err(e) => Err(e.to_string()),
    }
}

/// Reads bytes as UTF-8 text.
pub fn bytes_to_string(value: &[u8]) -> (r: Option<String>)
    ensures
        opt_view(r) == utf8_text(value@),
{
    match utf8_to_string(value) {
        Ok(s) => Some(s),
        Err(_) => None,
    }
}

/// The text value stored under `key` (see [`meta_text`]).
pub fn metadata_string(metadata: &Metadata, key: &str) -> (r: Option<String>)
    ensures
        opt_view(r) == meta_text(metadata_view(metadata@), key@),
{
    let ghost m = metadata_view(metadata@);
    let mut i: usize = 0;
    assert(m.skip(0) =~= m);
    while i < metadata.len()
        invariant
            i <= metadata@.len(),
            m == metadata_view(metadata@),
            meta_lookup(m, key@) == meta_lookup(m.skip(i as int), key@),
        decreases metadata@.len() - i,
    {
        proof {
            assert(m.skip(i as int).drop_first() =~= m.skip(i + 1));
        }
        if str_eq(metadata[i].0.as_str(), key) {
            return bytes_to_string(metadata[i].1.as_slice());
        }
        i += 1;
    }
    None
}

// ---------------------------------------------------------------------------
// Individual fields

/// Format requested in the metadata and whether one was named: `protobuf`
/// or `proto` (any ASCII case) is protobuf, any other value JSON.
pub open spec fn format_from_meta(m: Seq<(Seq<char>, Seq<u8>)>) -> (SerializationFormat, bool) {
    match meta_text(m, "format"@) {
        None => (SerializationFormat::Json, false),
        Some(v) => if ascii_lower_seq(v) == "protobuf"@ || ascii_lower_seq(v) == "proto"@ {
            (SerializationFormat::Protobuf, true)
        } else {
            (SerializationFormat::Json, true)
        },
    }
}

/// Compression requested in the metadata; unknown or absent is none.
pub open spec fn compression_from_meta(m: Seq<(Seq<char>, Seq<u8>)>) -> CompressionAlgorithm {
    match meta_text(m, "compression"@) {
        Some(v) => match compression_from_name(v) {
            Some(c) => c,
            None => CompressionAlgorithm::Uncompressed,
        },
        None => CompressionAlgorithm::Uncompressed,
    }
}

/// Encryption requested in the metadata; unknown or absent is none.
pub open spec fn encryption_from_meta(m: Seq<(Seq<char>, Seq<u8>)>) -> EncryptionAlgorithm {
    match meta_text(m, "encryption"@) {
        Some(v) => match encryption_from_name(v) {
            Some(e) => e,
            None => EncryptionAlgorithm::Plaintext,
        },
        None => EncryptionAlgorithm::Plaintext,
    }
}

/// Parses the `format` entry (see [`format_from_meta`]).
pub fn parse_serialization_format(metadata: &Metadata) -> (r: (SerializationFormat, bool))
    ensures
        r == format_from_meta(metadata_view(metadata@)),
{
    proof {
        reveal_strlit("format");
        reveal_strlit("protobuf");
        reveal_strlit("proto");
        assert(ascii_lower_seq("protobuf"@) =~= "protobuf"@);
        assert(ascii_lower_seq("proto"@) =~= "proto"@);
    }
    match metadata_string(metadata, "format") {
        None => (SerializationFormat::Json, false),
        Some(format) => {
            if eq_ignore_ascii_case(format.as_str(), "protobuf") || eq_ignore_ascii_case(
                format.as_str(),
                "proto",
            ) {
                (SerializationFormat::Protobuf, true)
            } else {
                (SerializationFormat::Json, true)
            }
        },
    }
}

/// Parses the `compression` entry (see [`compression_from_meta`]).
pub fn parse_compression(metadata: &Metadata) -> (r: CompressionAlgorithm)
    ensures
        r == compression_from_meta(metadata_view(metadata@)),
{
    match metadata_string(metadata, "compression") {
        Some(value) => match CompressionAlgorithm::from_str(value.as_str()) {
            Some(c) => c,
            None => CompressionAlgorithm::Uncompressed,
        },
        None => CompressionAlgorithm::Uncompressed,
    }
}

/// Parses the `encryption` entry (see [`encryption_from_meta`]).
pub fn parse_encryption(metadata: &Metadata) -> (r: EncryptionAlgorithm)
    ensures
        r == encryption_from_meta(metadata_view(metadata@)),
{
    match metadata_string(metadata, "encryption") {
        Some(value) => match EncryptionAlgorithm::from_str(value.as_str()) {
            Some(e) => e,
            None => EncryptionAlgorithm::Plaintext,
        },
        None => EncryptionAlgorithm::Plaintext,
    }
}

// ---------------------------------------------------------------------------
// Device

/// Metadata keys that negotiation itself interprets; they are not copied
/// into the device's metadata.
pub open spec fn is_reserved_key(k: Seq<char>) -> bool {
    k == "compression"@ || k == "format"@ || k == "encryption"@ || k == "device_id"@ || k
        == "platform"@ || k == "model"@ || k == "app_version"@ || k == "system_version"@ || k
        == "user_id"@ || k == "force_format"@
}

/// Whether `key` is one of the keys negotiation interprets.
pub fn is_reserved_device_metadata_key(key: &str) -> (r: bool)
    ensures
        r == is_reserved_key(key@),
{
    str_eq(key, "compression") || str_eq(key, "format") || str_eq(key, "encryption") || str_eq(
        key,
        "device_id",
    ) || str_eq(key, "platform") || str_eq(key, "model") || str_eq(key, "app_version") || str_eq(
        key,
        "system_version",
    ) || str_eq(key, "user_id") || str_eq(key, "force_format")
}

/// The device metadata built from the CONNECT metadata: every entry with an
/// unreserved key and a UTF-8 value, set in order.
pub open spec fn device_meta_fold(acc: Seq<(Seq<char>, Seq<char>)>, m: Seq<(Seq<char>, Seq<u8>)>) -> Seq<
    (Seq<char>, Seq<char>),
>
    decreases m.len(),
{
    if m.len() == 0 {
        acc
    } else {
        let e = m[0];
        let acc2 = if !is_reserved_key(e.0) && valid_utf8(e.1) {
            pairs_insert(acc, e.0, decode_utf8(e.1))
        } else {
            acc
        };
        device_meta_fold(acc2, m.drop_first())
    }
}

/// Sets an optional field from an optional value, keeping it otherwise.
pub open spec fn or_keep(v: Option<Seq<char>>, old: Option<Seq<char>>) -> Option<Seq<char>> {
    match v {
        Some(x) => Some(x),
        None => old,
    }
}

/// The device described by the metadata: present exactly when a UTF-8
/// `device_id` is; platform parsed from `platform` (default `Other("unknown")`).
pub open spec fn device_from_meta(m: Seq<(Seq<char>, Seq<u8>)>) -> Option<DeviceInfoView> {
    match meta_text(m, "device_id"@) {
        None => None,
        Some(id) => Some(
            DeviceInfoView {
                device_id: id,
                platform: match meta_text(m, "platform"@) {
                    Some(p) => platform_from_name(p),
                    None => PlatformView::Other("unknown"@),
                },
                model: meta_text(m, "model"@),
                app_version: meta_text(m, "app_version"@),
                system_version: meta_text(m, "system_version"@),
                metadata: device_meta_fold(Seq::empty(), m),
            },
        ),
    }
}

/// Builds the device from the metadata (see [`device_from_meta`]).
pub fn parse_device_info(metadata: &Metadata) -> (r: Option<DeviceInfo>)
    ensures
        opt_device_view(r) == device_from_meta(metadata_view(metadata@)),
{
    let ghost m = metadata_view(metadata@);
    let device_id = match metadata_string(metadata, "device_id") {
        Some(id) => id,
        None => return None,
    };
    let platform = match metadata_string(metadata, "platform") {
        Some(value) => DevicePlatform::from_str(value.as_str()),
        None => DevicePlatform::Other(String::from_str("unknown")),
    };
    let mut device_info = DeviceInfo::new(device_id, platform);
    if let Some(model) = metadata_string(metadata, "model") {
        device_info = device_info.with_model(model);
    }
    if let Some(app_version) = metadata_string(metadata, "app_version") {
        device_info = device_info.with_app_version(app_version);
    }
    if let Some(system_version) = metadata_string(metadata, "system_version") {
        device_info = device_info.with_system_version(system_version);
    }
    let ghost head = device_info@;
    let mut i: usize = 0;
    assert(m.skip(0) =~= m);
    while i < metadata.len()
        invariant
            i <= metadata@.len(),
            m == metadata_view(metadata@),
            device_info@ == (DeviceInfoView { metadata: device_info@.metadata, ..head }),
            device_meta_fold(Seq::empty(), m) == device_meta_fold(
                device_info@.metadata,
                m.skip(i as int),
            ),
        decreases metadata@.len() - i,
    {
        proof {
            assert(m.skip(i as int).drop_first() =~= m.skip(i + 1));
            assert(m.skip(i as int)[0] == m[i as int]);
        }
        if !is_reserved_device_metadata_key(metadata[i].0.as_str()) {
            if let Some(value) = bytes_to_string(metadata[i].1.as_slice()) {
                device_info = device_info.with_metadata(metadata[i].0.clone(), value);
            }
        }
        i += 1;
    }
    proof {
        assert(m.skip(i as int) =~= Seq::<(Seq<char>, Seq<u8>)>::empty());
    }
    Some(device_info)
}

// ---------------------------------------------------------------------------
// CONNECT

/// The negotiation carried by a CONNECT command's metadata.
pub open spec fn negotiation_from_meta(m: Seq<(Seq<char>, Seq<u8>)>) -> NegotiationView {
    NegotiationView {
        serialization_format: format_from_meta(m).0,
        serialization_format_specified: format_from_meta(m).1,
        compression: compression_from_meta(m),
        encryption: encryption_from_meta(m),
        is_forced: meta_text(m, "force_format"@) == Some("true"@),
        device_info: device_from_meta(m),
        user_id: meta_text(m, "user_id"@),
    }
}

/// The negotiation a frame asks for: read from its CONNECT command, or the
/// default when it carries no CONNECT.
pub open spec fn negotiation_of(f: Frame) -> NegotiationView {
    match frame_system_command(f) {
        Some(cmd) => if cmd.command_type == SystemCommandType::Connect {
            negotiation_from_meta(metadata_view(cmd.metadata@))
        } else {
            default_negotiation()
        },
        None => default_negotiation(),
    }
}

/// Reads the client's negotiation request from a CONNECT frame. Frames
/// without a CONNECT command give the default negotiation. Never fails.
pub fn parse_connect_message(frame: &Frame) -> (r: Result<NegotiationResult, FlareError>)
    ensures
        r matches Ok(n) && n@ == negotiation_of(*frame),
{
    let sys_cmd = match connect_system_command(frame) {
        Some(c) => c,
        None => return Ok(NegotiationResult::default()),
    };
    if sys_cmd.command_type != SystemCommandType::Connect {
        return Ok(NegotiationResult::default());
    }
    let metadata = &sys_cmd.metadata;
    let (serialization_format, serialization_format_specified) = parse_serialization_format(
        metadata,
    );
    let is_forced = match metadata_string(metadata, "force_format") {
        Some(v) => str_eq(v.as_str(), "true"),
        None => false,
    };
    Ok(
        NegotiationResult {
            serialization_format,
            serialization_format_specified,
            compression: parse_compression(metadata),
            encryption: parse_encryption(metadata),
            is_forced,
            device_info: parse_device_info(metadata),
            user_id: metadata_string(metadata, "user_id"),
        },
    )
}


/// The compression and encryption algorithms this server has codecs for.
pub struct CodecRegistry {
    pub compression: Vec<CompressionAlgorithm>,
    pub encryption: Vec<EncryptionAlgorithm>,
}

impl CodecRegistry {
    /// Whether a compression codec is registered.
    pub fn has_compression(&self, c: CompressionAlgorithm) -> (r: bool)
        ensures
            r == self.compression@.contains(c),
    {
        let mut i: usize = 0;
        while i < self.compression.len()
            invariant
                i <= self.compression@.len(),
                forall|j: int| 0 <= j < i ==> self.compression@[j] != c,
            decreases self.compression@.len() - i,
        {
            if self.compression[i] == c {
                return true;
            }
            i += 1;
        }
        false
    }

    /// Whether an encryption codec is registered.
    pub fn has_encryption(&self, e: EncryptionAlgorithm) -> (r: bool)
        ensures
            r == self.encryption@.contains(e),
    {
        let mut i: usize = 0;
        while i < self.encryption.len()
            invariant
                i <= self.encryption@.len(),
                forall|j: int| 0 <= j < i ==> self.encryption@[j] != e,
            decreases self.encryption@.len() - i,
        {
            if self.encryption[i] == e {
                return true;
            }
            i += 1;
        }
        false
    }
}

/// The compression a CONNECT_ACK confirms: the requested one when a codec
/// is registered for it, else `none`.
pub open spec fn confirmed_compression(registry: CodecRegistry, c: CompressionAlgorithm) -> Seq<char> {
    if registry.compression@.contains(c) {
        compression_name(c)
    } else {
        "none"@
    }
}

/// The encryption a CONNECT_ACK confirms: the requested one when it is
/// plaintext or a codec is registered for it, else `none`.
pub open spec fn confirmed_encryption(registry: CodecRegistry, e: EncryptionAlgorithm) -> Seq<char> {
    if e != EncryptionAlgorithm::Plaintext && !registry.encryption@.contains(e) {
        "none"@
    } else {
        encryption_name(e)
    }
}

/// The view of optional extra metadata (empty when absent).
pub open spec fn extra_view(m: Option<Metadata>) -> Seq<(Seq<char>, Seq<u8>)> {
    match m {
        Some(v) => metadata_view(v@),
        None => Seq::empty(),
    }
}

/// Builds the CONNECT_ACK that confirms a negotiation: the format as
/// given, the compression and encryption as [`confirmed_compression`] and
/// [`confirmed_encryption`] decide, and the extra metadata (such as device
/// conflict details) inserted entry by entry.
pub fn create_connect_ack(
    format: SerializationFormat,
    compression: CompressionAlgorithm,
    encryption: EncryptionAlgorithm,
    additional_metadata: Option<Metadata>,
    registry: &CodecRegistry,
) -> (c: SystemCommand)
    ensures
        c.command_type == SystemCommandType::ConnectAck,
        c.serialization_format == format,
        metadata_view(c.metadata@) == connect_ack_metadata(
            meta_insert_all(Seq::empty(), extra_view(additional_metadata)),
            confirmed_compression(*registry, compression),
            confirmed_encryption(*registry, encryption),
        ),
{
    let compression_str: &str = if registry.has_compression(compression) {
        compression.as_str()
    } else {
        "none"
    };
    let encryption_str: &str = if encryption != EncryptionAlgorithm::Plaintext && !registry.has_encryption(
        encryption,
    ) {
        "none"
    } else {
        encryption.as_str()
    };
    let mut metadata: Metadata = Vec::new();
    if let Some(extra) = additional_metadata {
        let ghost ev = metadata_view(extra@);
        let mut i: usize = 0;
        while i < extra.len()
            invariant
                i <= extra@.len(),
                ev == metadata_view(extra@),
                metadata_view(metadata@) == meta_insert_all(Seq::empty(), ev.take(i as int)),
            decreases extra@.len() - i,
        {
            let (k, v) = (extra[i].0.clone(), extra[i].1.clone());
            metadata_insert(&mut metadata, k, v);
            assert(ev.take(i + 1).drop_last() =~= ev.take(i as int));
            i += 1;
        }
        assert(ev.take(extra@.len() as int) =~= ev);
    } else {
        assert(metadata_view(metadata@) =~= Seq::empty());
    }
    connect_ack(format, compression_str, encryption_str, metadata)
}


/// Metadata read-after-write: after setting `k` to `v`, reading `k` gives
/// `v`, and every other key reads as before.
pub proof fn lemma_metadata_read_after_write(m: Seq<(Seq<char>, Seq<u8>)>, k: Seq<char>, v: Seq<u8>, other: Seq<char>)
    ensures
        meta_lookup(meta_insert(m, k, v), k) == Some(v),
        other != k ==> meta_lookup(meta_insert(m, k, v), other) == meta_lookup(m, other),
    decreases m.len(),
{
    if m.len() == 0 {
        assert(meta_insert(m, k, v).drop_first() =~= Seq::<(Seq<char>, Seq<u8>)>::empty());
        assert(meta_insert(m, k, v)[0] == (k, v));
        assert(meta_lookup(meta_insert(m, k, v).drop_first(), other) == None::<Seq<u8>>);
    } else if m[0].0 == k {
        assert((seq![(k, v)] + m.drop_first()).drop_first() =~= m.drop_first());
        assert((seq![(k, v)] + m.drop_first())[0] == (k, v));
        if other != k {
            assert(meta_lookup(meta_insert(m, k, v), other) == meta_lookup(m.drop_first(), other));
        }
    } else {
        lemma_metadata_read_after_write(m.drop_first(), k, v, other);
        assert((seq![m[0]] + meta_insert(m.drop_first(), k, v)).drop_first() =~= meta_insert(m.drop_first(), k, v));
        assert((seq![m[0]] + meta_insert(m.drop_first(), k, v))[0] == m[0]);
        if other != k && m[0].0 != other {
            assert(meta_lookup(meta_insert(m, k, v), other) == meta_lookup(meta_insert(m.drop_first(), k, v), other));
        }
    }
}

/// A CONNECT forces its serialization format exactly when its
/// `force_format` entry holds the text `true`: any other text, `false`
/// among them, and a missing entry leave the format unforced.
pub proof fn lemma_force_format_only_on_true(f: Frame, value: Seq<char>)
    requires
        frame_system_command(f) is Some,
        frame_system_command(f)->0.command_type == SystemCommandType::Connect,
    ensures
        meta_lookup(metadata_view(frame_system_command(f)->0.metadata@), "force_format"@) == Some(encode_utf8(value))
            ==> (negotiation_of(f).is_forced <==> value == "true"@),
        meta_lookup(metadata_view(frame_system_command(f)->0.metadata@), "force_format"@) is None
            ==> !negotiation_of(f).is_forced,
{
    encode_utf8_decode_utf8(value);
    encode_utf8_valid_utf8(value);
    let m = metadata_view(frame_system_command(f)->0.metadata@);
    assert(negotiation_of(f) == negotiation_from_meta(m));
    if meta_lookup(m, "force_format"@) == Some(encode_utf8(value)) {
        assert(utf8_text(encode_utf8(value)) == Some(value));
        assert(meta_text(m, "force_format"@) == Some(value));
    }
}

} // verus!
