//! Per-connection state: identity, user binding, negotiated encoding,
//! authentication and activity times (milliseconds since the Unix epoch).

use crate::device::{
    copy_opt_string, copy_string_pairs, opt_view, pairs_insert, pairs_view, string_pairs_insert,
    DeviceInfo, DeviceInfoView, StringPairs,
};
use crate::negotiation::opt_device_view;
use crate::protocol::{CompressionAlgorithm, EncryptionAlgorithm, SerializationFormat};
use crate::utils::current_timestamp_ms;
use vstd::prelude::*;

verus! {

/// State kept for one connection.
#[derive(Debug, Clone)]
pub struct ConnectionInfo {
    /// Unique connection id.
    pub connection_id: String,
    /// Bound user, once known.
    pub user_id: Option<String>,
    /// Creation time, ms since the epoch.
    pub created_at: u64,
    /// Last activity, ms since the epoch.
    pub last_active: u64,
    /// Free-form metadata.
    pub metadata: StringPairs,
    /// Device, once reported.
    pub device_info: Option<DeviceInfo>,
    /// Negotiated serialization format (JSON until negotiated).
    pub serialization_format: SerializationFormat,
    /// Negotiated compression.
    pub compression: CompressionAlgorithm,
    /// Negotiated encryption.
    pub encryption: EncryptionAlgorithm,
    /// Whether the connection may exchange messages.
    pub authenticated: bool,
    /// When the connection was authenticated, seconds since the epoch.
    pub authenticated_at: Option<u64>,
    /// CONNECT answered with CONNECT_ACK.
    pub negotiation_completed: bool,
    /// The client confirmed the negotiation.
    pub negotiation_confirmed: bool,
}

/// The view of a [`ConnectionInfo`].
pub struct ConnectionInfoView {
    pub connection_id: Seq<char>,
    pub user_id: Option<Seq<char>>,
    pub created_at: u64,
    pub last_active: u64,
    pub metadata: Seq<(Seq<char>, Seq<char>)>,
    pub device_info: Option<DeviceInfoView>,
    pub serialization_format: SerializationFormat,
    pub compression: CompressionAlgorithm,
    pub encryption: EncryptionAlgorithm,
    pub authenticated: bool,
    pub authenticated_at: Option<u64>,
    pub negotiation_completed: bool,
    pub negotiation_confirmed: bool,
}

impl View for ConnectionInfo {
    type V = ConnectionInfoView;

    open spec fn view(&self) -> ConnectionInfoView {
        ConnectionInfoView {
            connection_id: self.connection_id@,
            user_id: opt_view(self.user_id),
            created_at: self.created_at,
            last_active: self.last_active,
            metadata: pairs_view(self.metadata@),
            device_info: opt_device_view(self.device_info),
            serialization_format: self.serialization_format,
            compression: self.compression,
            encryption: self.encryption,
            authenticated: self.authenticated,
            authenticated_at: self.authenticated_at,
            negotiation_completed: self.negotiation_completed,
            negotiation_confirmed: self.negotiation_confirmed,
        }
    }
}

/// A fresh connection created at `now` (ms): JSON, no compression or
/// encryption, nothing negotiated; authenticated at once (at `now / 1000`
/// seconds) exactly when no authentication is required.
pub open spec fn fresh_info(id: Seq<char>, requires_auth: bool, now: u64) -> ConnectionInfoView {
    ConnectionInfoView {
        connection_id: id,
        user_id: None,
        created_at: now,
        last_active: now,
        metadata: Seq::empty(),
        device_info: None,
        serialization_format: SerializationFormat::Json,
        compression: CompressionAlgorithm::Uncompressed,
        encryption: EncryptionAlgorithm::Plaintext,
        authenticated: !requires_auth,
        authenticated_at: if requires_auth { None } else { Some(now / 1000) },
        negotiation_completed: false,
        negotiation_confirmed: false,
    }
}

/// Sets the metadata entries of `extra`, in order, over `acc`.
pub open spec fn pairs_merge(acc: Seq<(Seq<char>, Seq<char>)>, extra: Seq<(Seq<char>, Seq<char>)>) -> Seq<(Seq<char>, Seq<char>)>
    decreases extra.len(),
{
    if extra.len() == 0 {
        acc
    } else {
        pairs_merge(pairs_insert(acc, extra[0].0, extra[0].1), extra.drop_first())
    }
}

/// Copies an optional device.
pub fn copy_opt_device(d: &Option<DeviceInfo>) -> (r: Option<DeviceInfo>)
    ensures
        opt_device_view(r) == opt_device_view(*d),
{
    match d {
        Some(v) => Some(v.copy_info()),
        None => None,
    }
}

/// Sets every entry of `extra` over `pairs` (see [`pairs_merge`]).
pub fn merge_string_pairs(pairs: &mut StringPairs, extra: StringPairs)
    ensures
        pairs_view(final(pairs)@) == pairs_merge(pairs_view(old(pairs)@), pairs_view(extra@)),
{
    let ghost e = pairs_view(extra@);
    let mut i: usize = 0;
    assert(e.skip(0) =~= e);
    while i < extra.len()
        invariant
            i <= extra@.len(),
            e == pairs_view(extra@),
            pairs_merge(pairs_view(old(pairs)@), e) == pairs_merge(pairs_view(pairs@), e.skip(i as int)),
        decreases extra@.len() - i,
    {
        proof {
            assert(e.skip(i as int).drop_first() =~= e.skip(i + 1));
        }
        string_pairs_insert(pairs, extra[i].0.clone(), extra[i].1.clone());
        i += 1;
    }
    assert(e.skip(i as int) =~= Seq::<(Seq<char>, Seq<char>)>::empty());
}

impl ConnectionInfo {
    /// A fresh connection created now (see [`fresh_info`]).
    pub fn new(connection_id: String, requires_auth: bool) -> (info: ConnectionInfo)
        ensures
            info@ == fresh_info(connection_id@, requires_auth, info.created_at),
    {
        let now = current_timestamp_ms();
        ConnectionInfo::new_at(connection_id, requires_auth, now)
    }

    /// A fresh connection created at `now` (see [`fresh_info`]).
    pub fn new_at(connection_id: String, requires_auth: bool, now: u64) -> (info: ConnectionInfo)
        ensures
            info@ == fresh_info(connection_id@, requires_auth, now),
    {
        let authenticated = !requires_auth;
        let info = ConnectionInfo {
            connection_id,
            user_id: None,
            created_at: now,
            last_active: now,
            metadata: Vec::new(),
            device_info: None,
            serialization_format: SerializationFormat::Json,
            compression: CompressionAlgorithm::Uncompressed,
            encryption: EncryptionAlgorithm::Plaintext,
            authenticated,
            authenticated_at: if authenticated { Some(now / 1000) } else { None },
            negotiation_completed: false,
            negotiation_confirmed: false,
        };
        assert(info@.metadata =~= Seq::empty());
        info
    }

    /// Marks the connection authenticated now, binding `user_id` when given.
    pub fn set_authenticated(&mut self, user_id: Option<String>)
        ensures
            final(self).authenticated_at is Some,
            final(self)@ == (ConnectionInfoView {
                authenticated: true,
                authenticated_at: final(self).authenticated_at,
                user_id: match user_id {
                    Some(u) => Some(u@),
                    None => old(self)@.user_id,
                },
                ..old(self)@
            }),
    {
        let now = current_timestamp_ms();
        self.set_authenticated_at(user_id, now);
    }

    /// Marks the connection authenticated at `now` (ms), binding `user_id`
    /// when given.
    pub fn set_authenticated_at(&mut self, user_id: Option<String>, now: u64)
        ensures
            final(self)@ == (ConnectionInfoView {
                authenticated: true,
                authenticated_at: Some(now / 1000),
                user_id: match user_id {
                    Some(u) => Some(u@),
                    None => old(self)@.user_id,
                },
                ..old(self)@
            }),
    {
        self.authenticated = true;
        self.authenticated_at = Some(now / 1000);
        if let Some(uid) = user_id {
            self.user_id = Some(uid);
        }
    }

    /// Whether the connection may exchange messages.
    pub fn is_authenticated(&self) -> (r: bool)
        ensures
            r == self.authenticated,
    {
        self.authenticated
    }

    /// Sets the device.
    pub fn with_device_info(self, device_info: DeviceInfo) -> (info: ConnectionInfo)
        ensures
            info@ == (ConnectionInfoView { device_info: Some(device_info@), ..self@ }),
    {
        ConnectionInfo { device_info: Some(device_info), ..self }
    }

    /// Sets the serialization format.
    pub fn with_serialization_format(self, format: SerializationFormat) -> (info: ConnectionInfo)
        ensures
            info@ == (ConnectionInfoView { serialization_format: format, ..self@ }),
    {
        ConnectionInfo { serialization_format: format, ..self }
    }

    /// Sets the compression.
    pub fn with_compression(self, compression: CompressionAlgorithm) -> (info: ConnectionInfo)
        ensures
            info@ == (ConnectionInfoView { compression, ..self@ }),
    {
        ConnectionInfo { compression, ..self }
    }

    /// Whether the connection has been idle for longer than `timeout` ms now.
    pub fn is_timeout(&self, timeout: u64) -> (r: bool)
        ensures
            exists|now: u64| r == #[trigger] idle_longer_than(self@, timeout, now),
    {
        let now = current_timestamp_ms();
        self.is_timeout_at(timeout, now)
    }

    /// Whether the connection has been idle for longer than `timeout` ms at
    /// `now`; a clock behind the last activity counts as no idle time.
    pub fn is_timeout_at(&self, timeout: u64, now: u64) -> (r: bool)
        ensures
            r == idle_longer_than(self@, timeout, now),
    {
        now > self.last_active && now - self.last_active > timeout
    }

    /// Records activity now.
    pub fn update_active(&mut self)
        ensures
            final(self)@ == (ConnectionInfoView { last_active: final(self).last_active, ..old(self)@ }),
    {
        let now = current_timestamp_ms();
        self.update_active_at(now);
    }

    /// Records activity at `now`.
    pub fn update_active_at(&mut self, now: u64)
        ensures
            final(self)@ == (ConnectionInfoView { last_active: now, ..old(self)@ }),
    {
        self.last_active = now;
    }

    /// A copy of this state.
    pub fn copy_info(&self) -> (info: ConnectionInfo)
        ensures
            info@ == self@,
    {
        ConnectionInfo {
            connection_id: self.connection_id.clone(),
            user_id: copy_opt_string(&self.user_id),
            created_at: self.created_at,
            last_active: self.last_active,
            metadata: copy_string_pairs(&self.metadata),
            device_info: copy_opt_device(&self.device_info),
            serialization_format: self.serialization_format,
            compression: self.compression,
            encryption: self.encryption,
            authenticated: self.authenticated,
            authenticated_at: self.authenticated_at,
            negotiation_completed: self.negotiation_completed,
            negotiation_confirmed: self.negotiation_confirmed,
        }
    }
}

/// Idle for longer than `timeout` ms at `now`.
pub open spec fn idle_longer_than(info: ConnectionInfoView, timeout: u64, now: u64) -> bool {
    now > info.last_active && now - info.last_active > timeout
}

/// Idleness is measured from the last recorded activity alone: a connection
/// whose activity was recorded at `t`, whatever its creation time or other
/// state, is idle for longer than `timeout` at `now` exactly when more than
/// `timeout` ms have passed since `t`.
pub proof fn lemma_idle_measured_from_last_activity(info: ConnectionInfoView, t: u64, timeout: u64, now: u64)
    ensures
        idle_longer_than(ConnectionInfoView { last_active: t, ..info }, timeout, now) <==> (now > t && now - t
            > timeout),
{
}

} // verus!
