//! The connection manager: registered connections (with the caller's
//! transport handle for each) and the index from users to their connections.

use crate::connection::{ConnectionInfo, ConnectionInfoView, fresh_info, idle_longer_than, merge_string_pairs, pairs_merge};
use crate::device::{opt_view, pairs_view, DeviceInfo, StringPairs};
use crate::negotiation::opt_device_view;
use crate::protocol::{
    connect_system_command, frame_system_command, CompressionAlgorithm, EncryptionAlgorithm, Frame,
    SerializationFormat, SystemCommandType,
};
use crate::error::{ErrorCode, FlareError};
use crate::keyed::{kv_map, kv_wf, lemma_kv_absent, lemma_kv_at, lemma_kv_len, lemma_kv_push, lemma_kv_remove, lemma_kv_update, lemma_take_next};
use crate::registry::{
    index_consistent, lemma_add_bound, lemma_add_unbound, lemma_insert_present, lemma_rebind,
    lemma_remove, lemma_same_user, list_without, user_insert, user_remove, user_remove_opt,
    ConnTable, UserIndex,
};
use crate::strings::{concat3, str_eq};
use crate::utils::{current_timestamp_ms, decimal, decimal_string};
use vstd::prelude::*;

verus! {

/// Default timeout of one write to a connection, in milliseconds.
pub const DEFAULT_SEND_TIMEOUT_MS: u64 = 10_000;

/// Default number of sends in flight during a fan-out.
pub const DEFAULT_FANOUT_CONCURRENCY: usize = 256;

/// Default capacity of each connection's write queue.
pub const DEFAULT_WRITE_QUEUE_CAPACITY: usize = 1024;

/// Connection and user counts.
#[derive(Debug, Clone, Copy, PartialEq, Eq, Structural)]
pub struct ConnectionStats {
    /// Registered connections.
    pub total_connections: usize,
    /// Users with at least one registered connection.
    pub total_users: usize,
}

/// One registered connection: its state and its transport handle.
pub struct ConnectionEntry<H> {
    info: ConnectionInfo,
    handle: H,
}

/// The connections of one user.
pub struct UserConnections {
    user_id: String,
    connection_ids: Vec<String>,
}

/// The views of a list of ids.
pub open spec fn ids_view(v: Seq<String>) -> Seq<Seq<char>> {
    v.map_values(|s: String| s@)
}

/// Registered connections and the user index over them.
pub struct ConnectionManager<H> {
    entries: Vec<ConnectionEntry<H>>,
    user_index: Vec<UserConnections>,
    send_timeout: u64,
    fanout_concurrency: usize,
    write_queue_capacity: usize,
}

/// The error answered for an unknown connection id.
pub open spec fn not_found_message(id: Seq<char>) -> Seq<char> {
    "Connection "@ + id + " not found"@
}

/// The error answered for an id that is already registered.
pub open spec fn exists_message(id: Seq<char>) -> Seq<char> {
    "Connection "@ + id + " already exists"@
}

/// The error answered when the connection limit is reached.
pub open spec fn limit_message(max: usize) -> Seq<char> {
    "Connection limit exceeded: "@ + decimal(max as nat)
}

fn not_found(id: &str) -> (e: FlareError)
    ensures
        e.code == ErrorCode::ProtocolError,
        e.message@ == not_found_message(id@),
{
    FlareError::protocol_error(concat3("Connection ", id, " not found"))
}


/// Position of `id` in a list of ids.
pub(crate) fn position_of(v: &Vec<String>, id: &str) -> (r: Option<usize>)
    ensures
        match r {
            Some(p) => p < v@.len() && ids_view(v@)[p as int] == id@ && forall|q: int| 0 <= q < p ==> ids_view(v@)[q] != id@,
            None => !ids_view(v@).contains(id@),
        },
{
    let mut p: usize = 0;
    while p < v.len()
        invariant
            p <= v@.len(),
            forall|q: int| 0 <= q < p ==> ids_view(v@)[q] != id@,
        decreases v@.len() - p,
    {
        if str_eq(v[p].as_str(), id) {
            return Some(p);
        }
        p += 1;
    }
    None
}

/// The view of a list after a push.
pub proof fn lemma_ids_push(v: Seq<String>, s: String)
    ensures
        ids_view(v.push(s)) == ids_view(v).push(s@),
{
    assert(ids_view(v.push(s)) =~= ids_view(v).push(s@));
}

/// Copies a list of ids.
pub fn copy_ids(v: &Vec<String>) -> (r: Vec<String>)
    ensures
        ids_view(r@) == ids_view(v@),
{
    let mut r: Vec<String> = Vec::new();
    let mut i: usize = 0;
    while i < v.len()
        invariant
            i <= v@.len(),
            ids_view(r@) == ids_view(v@).subrange(0, i as int),
        decreases v@.len() - i,
    {
        let s = v[i].clone();
        proof {
            lemma_ids_push(r@, s);
        }
        r.push(s);
        assert(ids_view(r@) =~= ids_view(v@).subrange(0, i + 1));
        i += 1;
    }
    assert(ids_view(v@).subrange(0, v@.len() as int) =~= ids_view(v@));
    r
}


/// The connections not idle for longer than `timeout` ms at `now`.
pub open spec fn active_only(conns: ConnTable, timeout: u64, now: u64) -> ConnTable {
    Map::new(
        |k: Seq<char>| conns.contains_key(k) && !idle_longer_than(conns[k], timeout, now),
        |k: Seq<char>| conns[k],
    )
}

/// The connections with activity recorded at `now` for every id of `ids`.
pub open spec fn touch_all(conns: ConnTable, ids: Seq<Seq<char>>, now: u64) -> ConnTable {
    Map::new(
        |k: Seq<char>| conns.contains_key(k),
        |k: Seq<char>| if ids.contains(k) {
            ConnectionInfoView { last_active: now, ..conns[k] }
        } else {
            conns[k]
        },
    )
}

/// How many positions of `ids` name a key of `dom`.
pub open spec fn count_registered(dom: Set<Seq<char>>, ids: Seq<Seq<char>>) -> nat
    decreases ids.len(),
{
    if ids.len() == 0 {
        0
    } else {
        count_registered(dom, ids.drop_last()) + if dom.contains(ids.last()) { 1nat } else { 0nat }
    }
}


/// Frames a connection may receive before authenticating: CONNECT_ACK,
/// PING, PONG, ERROR and CLOSE system commands.
pub open spec fn allowed_before_auth(f: Frame) -> bool {
    match frame_system_command(f) {
        Some(c) => c.command_type == SystemCommandType::ConnectAck || c.command_type == SystemCommandType::Ping
            || c.command_type == SystemCommandType::Pong || c.command_type == SystemCommandType::Error
            || c.command_type == SystemCommandType::Close,
        None => false,
    }
}

/// Whether a connection in state `info` may be sent `f`.
pub open spec fn may_receive(info: ConnectionInfoView, f: Frame) -> bool {
    info.authenticated || allowed_before_auth(f)
}

/// The error answered when a frame may not be sent to a connection yet.
pub open spec fn unauthenticated_message(id: Seq<char>) -> Seq<char> {
    "连接 "@ + id + " 未验证，无法发送消息"@
}

/// Whether `f` may be sent to connections that have not authenticated.
pub fn frame_allowed_before_auth(frame: &Frame) -> (r: bool)
    ensures
        r == allowed_before_auth(*frame),
{
    match connect_system_command(frame) {
        Some(c) => match c.command_type {
            SystemCommandType::ConnectAck => true,
            SystemCommandType::Ping => true,
            SystemCommandType::Pong => true,
            SystemCommandType::Error => true,
            SystemCommandType::Close => true,
            _ => false,
        },
        None => false,
    }
}

/// Checks that `frame` may be sent to the connection in state `info`.
pub fn ensure_frame_allowed_for_connection(connection_id: &str, info: &ConnectionInfo, frame: &Frame) -> (r: Result<(), FlareError>)
    ensures
        may_receive(info@, *frame) ==> r is Ok,
        !may_receive(info@, *frame) ==> (r matches Err(e) && e.code == ErrorCode::AuthenticationFailed
            && e.message@ == unauthenticated_message(connection_id@)),
{
    if info.authenticated || frame_allowed_before_auth(frame) {
        Ok(())
    } else {
        Err(FlareError::authentication_failed(concat3("连接 ", connection_id, " 未验证，无法发送消息")))
    }
}

/// Every list of the index repeats no id.
pub open spec fn lists_nodup(users: UserIndex) -> bool {
    forall|u: Seq<char>| #[trigger] users.contains_key(u) ==> users[u].no_duplicates()
}

impl<H> ConnectionManager<H> {
    /// Ids of the entries, in order.
    pub closed spec fn conn_ids(&self) -> Seq<Seq<char>> {
        self.entries@.map_values(|e: ConnectionEntry<H>| e.info.connection_id@)
    }

    closed spec fn infos(&self) -> Seq<ConnectionInfoView> {
        self.entries@.map_values(|e: ConnectionEntry<H>| e.info@)
    }

    closed spec fn handle_seq(&self) -> Seq<H> {
        self.entries@.map_values(|e: ConnectionEntry<H>| e.handle)
    }

    closed spec fn user_ids(&self) -> Seq<Seq<char>> {
        self.user_index@.map_values(|u: UserConnections| u.user_id@)
    }

    closed spec fn user_lists(&self) -> Seq<Seq<Seq<char>>> {
        self.user_index@.map_values(|u: UserConnections| ids_view(u.connection_ids@))
    }

    /// The registered connections, by id.
    pub closed spec fn conns(&self) -> ConnTable {
        kv_map(self.conn_ids(), self.infos())
    }

    /// The transport handle of each registered connection.
    pub closed spec fn handles(&self) -> Map<Seq<char>, H> {
        kv_map(self.conn_ids(), self.handle_seq())
    }

    /// The user index: connection ids of each user, in binding order.
    pub closed spec fn users(&self) -> UserIndex {
        kv_map(self.user_ids(), self.user_lists())
    }

    /// Write timeout used for each connection, in milliseconds.
    pub closed spec fn spec_send_timeout(&self) -> u64 {
        self.send_timeout
    }

    /// Sends in flight during a fan-out.
    pub closed spec fn spec_fanout_concurrency(&self) -> usize {
        self.fanout_concurrency
    }

    /// Capacity of each connection's write queue.
    pub closed spec fn spec_write_queue_capacity(&self) -> usize {
        self.write_queue_capacity
    }

    /// The manager is well formed: ids distinct, each connection's state
    /// carries its own id, and the user index is consistent.
    pub closed spec fn wf(&self) -> bool {
        &&& kv_wf(self.conn_ids(), self.infos())
        &&& kv_wf(self.conn_ids(), self.handle_seq())
        &&& kv_wf(self.user_ids(), self.user_lists())
        &&& index_consistent(self.conns(), self.users())
    }

    /// Every connection's state carries the id it is registered under.
    pub proof fn lemma_ids(&self)
        requires
            self.wf(),
        ensures
            forall|k: Seq<char>| #[trigger] self.conns().contains_key(k) ==> self.conns()[k].connection_id == k,
            self.handles().dom() == self.conns().dom(),
            self.conns().dom() == self.conn_ids().to_set(),
            self.conns().len() == self.conn_ids().len(),
            self.conn_ids().no_duplicates(),
    {
        assert forall|k: Seq<char>| #[trigger] self.conns().contains_key(k) implies self.conns()[k].connection_id == k by {
            let i = choose|i: int| 0 <= i < self.conn_ids().len() && self.conn_ids()[i] == k;
            lemma_kv_at(self.conn_ids(), self.infos(), i);
        }
        assert(self.handles().dom() =~= self.conns().dom());
        lemma_kv_len(self.conn_ids(), self.infos());
    }

    /// A connection bound to a user is listed under that user.
    pub proof fn lemma_bound_connection_listed(&self, k: Seq<char>)
        requires
            self.wf(),
            self.conns().contains_key(k),
            self.conns()[k].user_id is Some,
        ensures
            self.users().contains_key(self.conns()[k].user_id->0),
            self.users()[self.conns()[k].user_id->0].contains(k),
    {
    }

    /// Every id listed under a user is a registered connection bound to
    /// that user, and each is listed once.
    pub proof fn lemma_listed_connection_bound(&self, u: Seq<char>, j: int)
        requires
            self.wf(),
            self.users().contains_key(u),
            0 <= j < self.users()[u].len(),
        ensures
            self.conns().contains_key(self.users()[u][j]),
            self.conns()[self.users()[u][j]].user_id == Some(u),
            self.users()[u].no_duplicates(),
    {
    }

    proof fn lemma_lens(&self)
        requires
            self.wf(),
        ensures
            self.conns().len() == self.entries@.len(),
            self.users().len() == self.user_index@.len(),
    {
        lemma_kv_len(self.conn_ids(), self.infos());
        lemma_kv_len(self.user_ids(), self.user_lists());
    }

    /// An empty manager with the default limits.
    pub fn new() -> (m: ConnectionManager<H>)
        ensures
            m.wf(),
            m.conns().is_empty(),
            m.users().is_empty(),
            m.spec_send_timeout() == DEFAULT_SEND_TIMEOUT_MS,
            m.spec_fanout_concurrency() == DEFAULT_FANOUT_CONCURRENCY,
            m.spec_write_queue_capacity() == DEFAULT_WRITE_QUEUE_CAPACITY,
    {
        ConnectionManager::with_send_timeout(DEFAULT_SEND_TIMEOUT_MS)
    }

    /// An empty manager with the given write timeout (milliseconds).
    pub fn with_send_timeout(send_timeout: u64) -> (m: ConnectionManager<H>)
        ensures
            m.wf(),
            m.conns().is_empty(),
            m.users().is_empty(),
            m.spec_send_timeout() == send_timeout,
            m.spec_fanout_concurrency() == DEFAULT_FANOUT_CONCURRENCY,
            m.spec_write_queue_capacity() == DEFAULT_WRITE_QUEUE_CAPACITY,
    {
        ConnectionManager::with_limits(send_timeout, DEFAULT_FANOUT_CONCURRENCY)
    }

    /// An empty manager with the given write timeout and fan-out concurrency
    /// (at least 1).
    pub fn with_limits(send_timeout: u64, fanout_concurrency: usize) -> (m: ConnectionManager<H>)
        ensures
            m.wf(),
            m.conns().is_empty(),
            m.users().is_empty(),
            m.spec_send_timeout() == send_timeout,
            m.spec_fanout_concurrency() == if fanout_concurrency >= 1 { fanout_concurrency } else { 1 },
            m.spec_write_queue_capacity() == DEFAULT_WRITE_QUEUE_CAPACITY,
    {
        ConnectionManager::with_write_queue_limits(
            send_timeout,
            fanout_concurrency,
            DEFAULT_WRITE_QUEUE_CAPACITY,
        )
    }

    /// An empty manager with the given write timeout, fan-out concurrency
    /// and write-queue capacity (the last two at least 1).
    pub fn with_write_queue_limits(send_timeout: u64, fanout_concurrency: usize, write_queue_capacity: usize) -> (m: ConnectionManager<H>)
        ensures
            m.wf(),
            m.conns().is_empty(),
            m.users().is_empty(),
            m.spec_send_timeout() == send_timeout,
            m.spec_fanout_concurrency() == if fanout_concurrency >= 1 { fanout_concurrency } else { 1 },
            m.spec_write_queue_capacity() == if write_queue_capacity >= 1 { write_queue_capacity } else { 1 },
    {
        let m = ConnectionManager {
            entries: Vec::new(),
            user_index: Vec::new(),
            send_timeout,
            fanout_concurrency: if fanout_concurrency >= 1 { fanout_concurrency } else { 1 },
            write_queue_capacity: if write_queue_capacity >= 1 { write_queue_capacity } else { 1 },
        };
        assert(m.conns() =~= Map::empty());
        assert(m.users() =~= Map::empty());
        m
    }

    /// Write timeout used for each connection, in milliseconds.
    pub fn send_timeout(&self) -> (r: u64)
        ensures
            r == self.spec_send_timeout(),
    {
        self.send_timeout
    }

    /// Sends in flight during a fan-out.
    pub fn fanout_concurrency(&self) -> (r: usize)
        ensures
            r == self.spec_fanout_concurrency(),
    {
        self.fanout_concurrency
    }

    /// Capacity of each connection's write queue.
    pub fn write_queue_capacity(&self) -> (r: usize)
        ensures
            r == self.spec_write_queue_capacity(),
    {
        self.write_queue_capacity
    }

    fn find_entry(&self, id: &str) -> (r: Option<usize>)
        ensures
            match r {
                Some(i) => i < self.entries@.len() && self.conn_ids()[i as int] == id@,
                None => !self.conn_ids().contains(id@),
            },
    {
        let mut i: usize = 0;
        while i < self.entries.len()
            invariant
                i <= self.entries@.len(),
                forall|j: int| 0 <= j < i ==> self.conn_ids()[j] != id@,
            decreases self.entries@.len() - i,
        {
            if str_eq(self.entries[i].info.connection_id.as_str(), id) {
                return Some(i);
            }
            i += 1;
        }
        None
    }

    fn find_user(&self, user_id: &str) -> (r: Option<usize>)
        ensures
            match r {
                Some(j) => j < self.user_index@.len() && self.user_ids()[j as int] == user_id@,
                None => !self.user_ids().contains(user_id@),
            },
    {
        let mut j: usize = 0;
        while j < self.user_index.len()
            invariant
                j <= self.user_index@.len(),
                forall|k: int| 0 <= k < j ==> self.user_ids()[k] != user_id@,
            decreases self.user_index@.len() - j,
        {
            if str_eq(self.user_index[j].user_id.as_str(), user_id) {
                return Some(j);
            }
            j += 1;
        }
        None
    }


    fn insert_user_connection(&mut self, user_id: String, connection_id: &str) -> (is_new: bool)
        requires
            kv_wf(old(self).user_ids(), old(self).user_lists()),
        ensures
            kv_wf(final(self).user_ids(), final(self).user_lists()),
            final(self).users() == user_insert(old(self).users(), user_id@, connection_id@),
            final(self).entries == old(self).entries,
            final(self).send_timeout == old(self).send_timeout,
            final(self).fanout_concurrency == old(self).fanout_concurrency,
            final(self).write_queue_capacity == old(self).write_queue_capacity,
            is_new == !old(self).users().contains_key(user_id@),
    {
        let ghost ks = self.user_ids();
        let ghost vs = self.user_lists();
        match self.find_user(user_id.as_str()) {
            Some(j) => {
                proof {
                    lemma_kv_at(ks, vs, j as int);
                }
                let present = position_of(&self.user_index[j].connection_ids, connection_id);
                if present.is_none() {
                    let mut uc = self.user_index.remove(j);
                    let ghost l = ids_view(uc.connection_ids@);
                    uc.connection_ids.push(connection_id.to_owned());
                    assert(ids_view(uc.connection_ids@) =~= l.push(connection_id@));
                    self.user_index.insert(j, uc);
                    proof {
                        assert(self.user_ids() =~= ks);
                        assert(self.user_lists() =~= vs.update(j as int, l.push(connection_id@)));
                        lemma_kv_update(ks, vs, j as int, l.push(connection_id@));
                    }
                } else {
                    proof {
                        let p = present->0;
                        assert(vs[j as int].contains(connection_id@)) by {
                            assert(vs[j as int][p as int] == connection_id@);
                        }
                    }
                }
                false
            },
            None => {
                proof {
                    lemma_kv_absent(ks, vs, user_id@);
                }
                let mut ids: Vec<String> = Vec::new();
                ids.push(connection_id.to_owned());
                let ghost uv = user_id@;
                assert(ids_view(ids@) =~= seq![connection_id@]);
                self.user_index.push(UserConnections { user_id, connection_ids: ids });
                proof {
                    assert(self.user_ids() =~= ks.push(uv));
                    assert(self.user_lists() =~= vs.push(seq![connection_id@]));
                    lemma_kv_push(ks, vs, uv, seq![connection_id@]);
                }
                true
            },
        }
    }

    fn remove_user_connection(&mut self, user_id: &str, connection_id: &str) -> (dropped: bool)
        requires
            kv_wf(old(self).user_ids(), old(self).user_lists()),
            lists_nodup(old(self).users()),
        ensures
            kv_wf(final(self).user_ids(), final(self).user_lists()),
            final(self).users() == user_remove(old(self).users(), user_id@, connection_id@),
            final(self).entries == old(self).entries,
            final(self).send_timeout == old(self).send_timeout,
            final(self).fanout_concurrency == old(self).fanout_concurrency,
            final(self).write_queue_capacity == old(self).write_queue_capacity,
            dropped == (old(self).users().contains_key(user_id@) && list_without(
                old(self).users()[user_id@],
                connection_id@,
            ).len() == 0),
    {
        let ghost ks = self.user_ids();
        let ghost vs = self.user_lists();
        match self.find_user(user_id) {
            None => {
                proof {
                    lemma_kv_absent(ks, vs, user_id@);
                }
                false
            },
            Some(j) => {
                proof {
                    lemma_kv_at(ks, vs, j as int);
                }
                let mut uc = self.user_index.remove(j);
                let ghost l = ids_view(uc.connection_ids@);
                assert(l == vs[j as int]);
                let found = position_of(&uc.connection_ids, connection_id);
                if let Some(p) = found {
                    proof {
                        lemma_kv_at(l, l, p as int);
                        assert(l.contains(connection_id@));
                    }
                    uc.connection_ids.remove(p);
                    assert(ids_view(uc.connection_ids@) =~= l.remove(p as int));
                }
                assert(ids_view(uc.connection_ids@) == list_without(l, connection_id@));
                if uc.connection_ids.len() == 0 {
                    proof {
                        assert(self.user_ids() =~= ks.remove(j as int));
                        assert(self.user_lists() =~= vs.remove(j as int));
                        lemma_kv_remove(ks, vs, j as int);
                    }
                    true
                } else {
                    let ghost nl = ids_view(uc.connection_ids@);
                    self.user_index.insert(j, uc);
                    proof {
                        assert(self.user_ids() =~= ks);
                        assert(self.user_lists() =~= vs.update(j as int, nl));
                        lemma_kv_update(ks, vs, j as int, nl);
                    }
                    false
                }
            },
        }
    }

    /// Registers a connection at `now` (ms) unless the limit is reached or
    /// the id is taken: the limit is checked first, then the id. On success
    /// the connection starts fresh (see [`fresh_info`]) bound to `user_id`.
    pub fn add_connection_with_limit_at(
        &mut self,
        connection_id: String,
        connection: H,
        user_id: Option<String>,
        requires_auth: bool,
        max_connections: usize,
        now: u64,
    ) -> (r: Result<(), FlareError>)
        requires
            old(self).wf(),
        ensures
            final(self).wf(),
            old(self).conns().len() >= max_connections ==> (r matches Err(e) && e.code == ErrorCode::ConnectionFailed
                && e.message@ == limit_message(max_connections) && *final(self) == *old(self)),
            old(self).conns().len() < max_connections && old(self).conns().contains_key(connection_id@)
                ==> (r matches Err(e) && e.code == ErrorCode::ProtocolError && e.message@ == exists_message(connection_id@)
                && *final(self) == *old(self)),
            old(self).conns().len() < max_connections && !old(self).conns().contains_key(connection_id@) ==> {
                &&& r is Ok
                &&& final(self).conns() == old(self).conns().insert(
                    connection_id@,
                    ConnectionInfoView {
                        user_id: opt_view(user_id),
                        ..fresh_info(connection_id@, requires_auth, now)
                    },
                )
                &&& final(self).handles() == old(self).handles().insert(connection_id@, connection)
                &&& final(self).users() == match user_id {
                    Some(u) => user_insert(old(self).users(), u@, connection_id@),
                    None => old(self).users(),
                }
            },
            final(self).spec_send_timeout() == old(self).spec_send_timeout(),
            final(self).spec_fanout_concurrency() == old(self).spec_fanout_concurrency(),
            final(self).spec_write_queue_capacity() == old(self).spec_write_queue_capacity(),
    {
        proof {
            self.lemma_lens();
        }
        if self.entries.len() >= max_connections {
            let msg = decimal_string(max_connections as u64);
            let mut text = String::from_str("Connection limit exceeded: ");
            text.append(msg.as_str());
            return Err(FlareError::connection_failed(text));
        }
        if let Some(_) = self.find_entry(connection_id.as_str()) {
            proof {
                let i = choose|i: int| 0 <= i < self.conn_ids().len() && self.conn_ids()[i] == connection_id@;
                lemma_kv_at(self.conn_ids(), self.infos(), i);
            }
            return Err(FlareError::protocol_error(concat3("Connection ", connection_id.as_str(), " already exists")));
        }
        let ghost old_conns = self.conns();
        let ghost old_handles = self.handles();
        let ghost old_users = self.users();
        let ghost ks = self.conn_ids();
        let ghost vs = self.infos();
        let ghost hs = self.handle_seq();
        let ghost id = connection_id@;
        proof {
            lemma_kv_absent(ks, vs, id);
        }
        let mut info = ConnectionInfo::new_at(connection_id.clone(), requires_auth, now);
        let user_copy = crate::device::copy_opt_string(&user_id);
        info.user_id = user_copy;
        let ghost iv = info@;
        self.entries.push(ConnectionEntry { info, handle: connection });
        proof {
            assert(self.conn_ids() =~= ks.push(id));
            assert(self.infos() =~= vs.push(iv));
            assert(self.handle_seq() =~= hs.push(connection));
            lemma_kv_push(ks, vs, id, iv);
            lemma_kv_push(ks, hs, id, connection);
        }
        match user_id {
            Some(u) => {
                let ghost uv = u@;
                proof {
                    lemma_add_bound(old_conns, old_users, id, iv, uv);
                }
                self.insert_user_connection(u, connection_id.as_str());
                proof {
                    assert(self.conns() == old_conns.insert(id, iv));
                }
            },
            None => {
                proof {
                    lemma_add_unbound(old_conns, old_users, id, iv);
                }
            },
        }
        Ok(())
    }

    /// [`ConnectionManager::add_connection_with_limit_at`] at the current time.
    pub fn add_connection_with_limit(
        &mut self,
        connection_id: String,
        connection: H,
        user_id: Option<String>,
        requires_auth: bool,
        max_connections: usize,
    ) -> (r: Result<(), FlareError>)
        requires
            old(self).wf(),
        ensures
            final(self).wf(),
            old(self).conns().len() >= max_connections ==> (r matches Err(e) && e.code == ErrorCode::ConnectionFailed
                && e.message@ == limit_message(max_connections) && *final(self) == *old(self)),
            old(self).conns().len() < max_connections && old(self).conns().contains_key(connection_id@)
                ==> (r matches Err(e) && e.code == ErrorCode::ProtocolError && e.message@ == exists_message(connection_id@)
                && *final(self) == *old(self)),
            old(self).conns().len() < max_connections && !old(self).conns().contains_key(connection_id@) ==> {
                &&& r is Ok
                &&& final(self).conns() == old(self).conns().insert(
                    connection_id@,
                    ConnectionInfoView {
                        user_id: opt_view(user_id),
                        ..fresh_info(connection_id@, requires_auth, final(self).conns()[connection_id@].created_at)
                    },
                )
                &&& final(self).handles() == old(self).handles().insert(connection_id@, connection)
                &&& final(self).users() == match user_id {
                    Some(u) => user_insert(old(self).users(), u@, connection_id@),
                    None => old(self).users(),
                }
            },
            final(self).spec_send_timeout() == old(self).spec_send_timeout(),
            final(self).spec_fanout_concurrency() == old(self).spec_fanout_concurrency(),
            final(self).spec_write_queue_capacity() == old(self).spec_write_queue_capacity(),
    {
        let now = current_timestamp_ms();
        self.add_connection_with_limit_at(connection_id, connection, user_id, requires_auth, max_connections, now)
    }

    /// Registers a connection with no limit on the count (see
    /// [`ConnectionManager::add_connection_with_limit`]).
    pub fn add_connection(
        &mut self,
        connection_id: String,
        connection: H,
        user_id: Option<String>,
        requires_auth: bool,
    ) -> (r: Result<(), FlareError>)
        requires
            old(self).wf(),
        ensures
            final(self).wf(),
            old(self).conns().len() >= usize::MAX ==> (r matches Err(e) && e.code == ErrorCode::ConnectionFailed
                && *final(self) == *old(self)),
            old(self).conns().len() < usize::MAX && old(self).conns().contains_key(connection_id@)
                ==> (r matches Err(e) && e.code == ErrorCode::ProtocolError && e.message@ == exists_message(connection_id@)
                && *final(self) == *old(self)),
            old(self).conns().len() < usize::MAX && !old(self).conns().contains_key(connection_id@) ==> {
                &&& r is Ok
                &&& final(self).conns() == old(self).conns().insert(
                    connection_id@,
                    ConnectionInfoView {
                        user_id: opt_view(user_id),
                        ..fresh_info(connection_id@, requires_auth, final(self).conns()[connection_id@].created_at)
                    },
                )
                &&& final(self).handles() == old(self).handles().insert(connection_id@, connection)
                &&& final(self).users() == match user_id {
                    Some(u) => user_insert(old(self).users(), u@, connection_id@),
                    None => old(self).users(),
                }
            },
            final(self).spec_send_timeout() == old(self).spec_send_timeout(),
            final(self).spec_fanout_concurrency() == old(self).spec_fanout_concurrency(),
            final(self).spec_write_queue_capacity() == old(self).spec_write_queue_capacity(),
    {
        self.add_connection_with_limit(connection_id, connection, user_id, requires_auth, usize::MAX)
    }

    fn remove_entry_at(&mut self, i: usize) -> (removed: ConnectionEntry<H>)
        requires
            old(self).wf(),
            i < old(self).entries@.len(),
        ensures
            final(self).wf(),
            removed.info@ == old(self).conns()[old(self).conn_ids()[i as int]],
            removed.info.connection_id@ == old(self).conn_ids()[i as int],
            removed.handle == old(self).handles()[old(self).conn_ids()[i as int]],
            final(self).conn_ids() == old(self).conn_ids().remove(i as int),
            final(self).infos() == old(self).infos().remove(i as int),
            old(self).conns().contains_key(old(self).conn_ids()[i as int]),
            final(self).conns() == old(self).conns().remove(old(self).conn_ids()[i as int]),
            final(self).handles() == old(self).handles().remove(old(self).conn_ids()[i as int]),
            final(self).users() == user_remove_opt(
                old(self).users(),
                old(self).conns()[old(self).conn_ids()[i as int]].user_id,
                old(self).conn_ids()[i as int],
            ),
            final(self).send_timeout == old(self).send_timeout,
            final(self).fanout_concurrency == old(self).fanout_concurrency,
            final(self).write_queue_capacity == old(self).write_queue_capacity,
    {
        let ghost ks = self.conn_ids();
        let ghost vs = self.infos();
        let ghost hs = self.handle_seq();
        let ghost old_conns = self.conns();
        let ghost old_users = self.users();
        let ghost k = ks[i as int];
        proof {
            lemma_kv_at(ks, vs, i as int);
            lemma_kv_at(ks, hs, i as int);
            lemma_remove(old_conns, old_users, k);
        }
        let entry = self.entries.remove(i);
        proof {
            assert(self.conn_ids() =~= ks.remove(i as int));
            assert(self.infos() =~= vs.remove(i as int));
            assert(self.handle_seq() =~= hs.remove(i as int));
            lemma_kv_remove(ks, vs, i as int);
            lemma_kv_remove(ks, hs, i as int);
        }
        if let Some(u) = &entry.info.user_id {
            self.remove_user_connection(u.as_str(), entry.info.connection_id.as_str());
        }
        entry
    }

    /// Unregisters a connection and drops it from its user's list; an unknown
    /// id is an error and changes nothing.
    pub fn remove_connection(&mut self, connection_id: &str) -> (r: Result<(), FlareError>)
        requires
            old(self).wf(),
        ensures
            final(self).wf(),
            old(self).conns().contains_key(connection_id@) ==> {
                &&& r is Ok
                &&& final(self).conns() == old(self).conns().remove(connection_id@)
                &&& final(self).handles() == old(self).handles().remove(connection_id@)
                &&& final(self).users() == user_remove_opt(
                    old(self).users(),
                    old(self).conns()[connection_id@].user_id,
                    connection_id@,
                )
            },
            !old(self).conns().contains_key(connection_id@) ==> (r matches Err(e) && e.code == ErrorCode::ProtocolError
                && e.message@ == not_found_message(connection_id@) && *final(self) == *old(self)),
            final(self).spec_send_timeout() == old(self).spec_send_timeout(),
            final(self).spec_fanout_concurrency() == old(self).spec_fanout_concurrency(),
            final(self).spec_write_queue_capacity() == old(self).spec_write_queue_capacity(),
    {
        match self.find_entry(connection_id) {
            None => {
                proof {
                    lemma_kv_absent(self.conn_ids(), self.infos(), connection_id@);
                }
                Err(not_found(connection_id))
            },
            Some(i) => {
                let _entry = self.remove_entry_at(i);
                Ok(())
            },
        }
    }


    /// Unregisters a connection and hands back its handle and state; an
    /// unknown id gives nothing and changes nothing.
    pub fn take_connection(&mut self, connection_id: &str) -> (r: Option<(H, ConnectionInfo)>)
        requires
            old(self).wf(),
        ensures
            final(self).wf(),
            match r {
                Some((h, info)) => {
                    &&& old(self).conns().contains_key(connection_id@)
                    &&& h == old(self).handles()[connection_id@]
                    &&& info@ == old(self).conns()[connection_id@]
                    &&& final(self).conns() == old(self).conns().remove(connection_id@)
                    &&& final(self).handles() == old(self).handles().remove(connection_id@)
                    &&& final(self).users() == user_remove_opt(
                        old(self).users(),
                        old(self).conns()[connection_id@].user_id,
                        connection_id@,
                    )
                },
                None => !old(self).conns().contains_key(connection_id@) && *final(self) == *old(self),
            },
            final(self).spec_send_timeout() == old(self).spec_send_timeout(),
            final(self).spec_fanout_concurrency() == old(self).spec_fanout_concurrency(),
            final(self).spec_write_queue_capacity() == old(self).spec_write_queue_capacity(),
    {
        match self.find_entry(connection_id) {
            None => {
                proof {
                    lemma_kv_absent(self.conn_ids(), self.infos(), connection_id@);
                }
                None
            },
            Some(i) => {
                let entry = self.remove_entry_at(i);
                Some((entry.handle, entry.info))
            },
        }
    }

    fn replace_info_at(&mut self, i: usize, info: ConnectionInfo)
        requires
            kv_wf(old(self).conn_ids(), old(self).infos()),
            kv_wf(old(self).conn_ids(), old(self).handle_seq()),
            i < old(self).entries@.len(),
            info.connection_id@ == old(self).conn_ids()[i as int],
        ensures
            kv_wf(final(self).conn_ids(), final(self).infos()),
            kv_wf(final(self).conn_ids(), final(self).handle_seq()),
            final(self).conn_ids() == old(self).conn_ids(),
            final(self).conns() == old(self).conns().insert(old(self).conn_ids()[i as int], info@),
            final(self).handles() == old(self).handles(),
            final(self).user_index == old(self).user_index,
            final(self).send_timeout == old(self).send_timeout,
            final(self).fanout_concurrency == old(self).fanout_concurrency,
            final(self).write_queue_capacity == old(self).write_queue_capacity,
    {
        let ghost ks = self.conn_ids();
        let ghost vs = self.infos();
        let ghost hs = self.handle_seq();
        let ghost iv = info@;
        let mut e = self.entries.remove(i);
        e.info = info;
        self.entries.insert(i, e);
        proof {
            assert(self.conn_ids() =~= ks);
            assert(self.infos() =~= vs.update(i as int, iv));
            assert(self.handle_seq() =~= hs);
            lemma_kv_update(ks, vs, i as int, iv);
        }
    }

    /// Binds a connection to `user_id`: its previous user binding is
    /// forgotten and the new one recorded. Unknown ids are an error.
    pub fn bind_user(&mut self, connection_id: &str, user_id: String) -> (r: Result<(), FlareError>)
        requires
            old(self).wf(),
        ensures
            final(self).wf(),
            old(self).conns().contains_key(connection_id@) ==> {
                &&& r is Ok
                &&& final(self).conns() == old(self).conns().insert(
                    connection_id@,
                    ConnectionInfoView { user_id: Some(user_id@), ..old(self).conns()[connection_id@] },
                )
                &&& final(self).handles() == old(self).handles()
                &&& final(self).users() == user_insert(
                    user_remove_opt(old(self).users(), old(self).conns()[connection_id@].user_id, connection_id@),
                    user_id@,
                    connection_id@,
                )
            },
            !old(self).conns().contains_key(connection_id@) ==> (r matches Err(e) && e.code == ErrorCode::ProtocolError
                && e.message@ == not_found_message(connection_id@) && *final(self) == *old(self)),
            final(self).spec_send_timeout() == old(self).spec_send_timeout(),
            final(self).spec_fanout_concurrency() == old(self).spec_fanout_concurrency(),
            final(self).spec_write_queue_capacity() == old(self).spec_write_queue_capacity(),
    {
        let i = match self.find_entry(connection_id) {
            None => {
                proof {
                    lemma_kv_absent(self.conn_ids(), self.infos(), connection_id@);
                }
                return Err(not_found(connection_id));
            },
            Some(i) => i,
        };
        let ghost k = connection_id@;
        let ghost old_conns = self.conns();
        let ghost old_users = self.users();
        proof {
            lemma_kv_at(self.conn_ids(), self.infos(), i as int);
            self.lemma_ids();
        }
        let mut info = self.entries[i].info.copy_info();
        let old_user = crate::device::copy_opt_string(&info.user_id);
        let ghost uv = user_id@;
        info.user_id = Some(user_id.clone());
        let ghost iv = info@;
        proof {
            lemma_rebind(old_conns, old_users, k, iv, uv);
            lemma_remove(old_conns, old_users, k);
        }
        self.replace_info_at(i, info);
        if let Some(o) = &old_user {
            self.remove_user_connection(o.as_str(), connection_id);
        }
        self.insert_user_connection(user_id, connection_id);
        Ok(())
    }

    /// Records activity of a connection at `now`; unknown ids are an error.
    pub fn update_connection_active_at(&mut self, connection_id: &str, now: u64) -> (r: Result<(), FlareError>)
        requires
            old(self).wf(),
        ensures
            final(self).wf(),
            old(self).conns().contains_key(connection_id@) ==> {
                &&& r is Ok
                &&& final(self).conns() == old(self).conns().insert(
                    connection_id@,
                    ConnectionInfoView { last_active: now, ..old(self).conns()[connection_id@] },
                )
                &&& final(self).handles() == old(self).handles()
                &&& final(self).users() == old(self).users()
            },
            !old(self).conns().contains_key(connection_id@) ==> (r matches Err(e) && e.code == ErrorCode::ProtocolError
                && e.message@ == not_found_message(connection_id@) && *final(self) == *old(self)),
            final(self).spec_send_timeout() == old(self).spec_send_timeout(),
            final(self).spec_fanout_concurrency() == old(self).spec_fanout_concurrency(),
            final(self).spec_write_queue_capacity() == old(self).spec_write_queue_capacity(),
    {
        let i = match self.find_entry(connection_id) {
            None => {
                proof {
                    lemma_kv_absent(self.conn_ids(), self.infos(), connection_id@);
                }
                return Err(not_found(connection_id));
            },
            Some(i) => i,
        };
        proof {
            lemma_kv_at(self.conn_ids(), self.infos(), i as int);
            self.lemma_ids();
        }
        let mut info = self.entries[i].info.copy_info();
        info.update_active_at(now);
        proof {
            lemma_same_user(self.conns(), self.users(), connection_id@, info@);
        }
        self.replace_info_at(i, info);
        Ok(())
    }

    /// [`ConnectionManager::update_connection_active_at`] at the current time.
    pub fn update_connection_active(&mut self, connection_id: &str) -> (r: Result<(), FlareError>)
        requires
            old(self).wf(),
        ensures
            final(self).wf(),
            old(self).conns().contains_key(connection_id@) ==> {
                &&& r is Ok
                &&& final(self).conns() == old(self).conns().insert(
                    connection_id@,
                    ConnectionInfoView {
                        last_active: final(self).conns()[connection_id@].last_active,
                        ..old(self).conns()[connection_id@]
                    },
                )
                &&& final(self).handles() == old(self).handles()
                &&& final(self).users() == old(self).users()
            },
            !old(self).conns().contains_key(connection_id@) ==> (r matches Err(e) && e.code == ErrorCode::ProtocolError
                && e.message@ == not_found_message(connection_id@) && *final(self) == *old(self)),
            final(self).spec_send_timeout() == old(self).spec_send_timeout(),
            final(self).spec_fanout_concurrency() == old(self).spec_fanout_concurrency(),
            final(self).spec_write_queue_capacity() == old(self).spec_write_queue_capacity(),
    {
        let now = current_timestamp_ms();
        self.update_connection_active_at(connection_id, now)
    }

    /// Records `user` (when given) as a connection's user, keeping the
    /// index consistent: a changed binding is moved, an unchanged one kept.
    fn apply_user(&mut self, connection_id: &str, old_user: Option<String>, user: Option<String>)
        requires
            kv_wf(old(self).user_ids(), old(self).user_lists()),
            lists_nodup(old(self).users()),
        ensures
            kv_wf(final(self).user_ids(), final(self).user_lists()),
            final(self).users() == match user {
                None => old(self).users(),
                Some(u) => if opt_view(old_user) == Some(u@) {
                    user_insert(old(self).users(), u@, connection_id@)
                } else {
                    user_insert(user_remove_opt(old(self).users(), opt_view(old_user), connection_id@), u@, connection_id@)
                },
            },
            final(self).entries == old(self).entries,
            final(self).send_timeout == old(self).send_timeout,
            final(self).fanout_concurrency == old(self).fanout_concurrency,
            final(self).write_queue_capacity == old(self).write_queue_capacity,
    {
        if let Some(u) = user {
            let changed = match &old_user {
                Some(o) => !str_eq(o.as_str(), u.as_str()),
                None => true,
            };
            if changed {
                if let Some(o) = &old_user {
                    self.remove_user_connection(o.as_str(), connection_id);
                }
            }
            self.insert_user_connection(u, connection_id);
        }
    }

    /// Marks a connection authenticated at `now` (ms). Its user becomes
    /// `user_id` when given, else stays; the index follows. Unknown ids are
    /// an error.
    pub fn set_connection_authenticated_at(&mut self, connection_id: &str, user_id: Option<String>, now: u64) -> (r: Result<(), FlareError>)
        requires
            old(self).wf(),
        ensures
            final(self).wf(),
            old(self).conns().contains_key(connection_id@) ==> {
                let old_info = old(self).conns()[connection_id@];
                let new_user = match user_id {
                    Some(u) => Some(u@),
                    None => old_info.user_id,
                };
                &&& r is Ok
                &&& final(self).conns() == old(self).conns().insert(
                    connection_id@,
                    ConnectionInfoView {
                        authenticated: true,
                        authenticated_at: Some(now / 1000),
                        user_id: new_user,
                        ..old_info
                    },
                )
                &&& final(self).handles() == old(self).handles()
                &&& final(self).users() == match new_user {
                    Some(u) => if old_info.user_id == Some(u) {
                        old(self).users()
                    } else {
                        user_insert(user_remove_opt(old(self).users(), old_info.user_id, connection_id@), u, connection_id@)
                    },
                    None => old(self).users(),
                }
            },
            !old(self).conns().contains_key(connection_id@) ==> (r matches Err(e) && e.code == ErrorCode::ProtocolError
                && e.message@ == not_found_message(connection_id@) && *final(self) == *old(self)),
            final(self).spec_send_timeout() == old(self).spec_send_timeout(),
            final(self).spec_fanout_concurrency() == old(self).spec_fanout_concurrency(),
            final(self).spec_write_queue_capacity() == old(self).spec_write_queue_capacity(),
    {
        let i = match self.find_entry(connection_id) {
            None => {
                proof {
                    lemma_kv_absent(self.conn_ids(), self.infos(), connection_id@);
                }
                return Err(not_found(connection_id));
            },
            Some(i) => i,
        };
        let ghost k = connection_id@;
        let ghost old_conns = self.conns();
        let ghost old_users = self.users();
        proof {
            lemma_kv_at(self.conn_ids(), self.infos(), i as int);
            self.lemma_ids();
        }
        let mut info = self.entries[i].info.copy_info();
        let old_user = crate::device::copy_opt_string(&info.user_id);
        let final_user = match user_id {
            Some(u) => Some(u),
            None => crate::device::copy_opt_string(&info.user_id),
        };
        let for_info = crate::device::copy_opt_string(&final_user);
        info.set_authenticated_at(for_info, now);
        let ghost iv = info@;
        proof {
            match opt_view(final_user) {
                Some(u) => {
                    if old_conns[k].user_id == Some(u) {
                        lemma_same_user(old_conns, old_users, k, iv);
                        lemma_insert_present(old_conns, old_users, k, u);
                    } else {
                        lemma_rebind(old_conns, old_users, k, iv, u);
                        lemma_remove(old_conns, old_users, k);
                    }
                },
                None => {
                    lemma_same_user(old_conns, old_users, k, iv);
                },
            }
        }
        self.replace_info_at(i, info);
        self.apply_user(connection_id, old_user, final_user);
        Ok(())
    }

    /// [`ConnectionManager::set_connection_authenticated_at`] at the current time.
    pub fn set_connection_authenticated(&mut self, connection_id: &str, user_id: Option<String>) -> (r: Result<(), FlareError>)
        requires
            old(self).wf(),
        ensures
            final(self).wf(),
            old(self).conns().contains_key(connection_id@) ==> {
                let old_info = old(self).conns()[connection_id@];
                let new_user = match user_id {
                    Some(u) => Some(u@),
                    None => old_info.user_id,
                };
                &&& r is Ok
                &&& final(self).conns()[connection_id@].authenticated_at is Some
                &&& final(self).conns() == old(self).conns().insert(
                    connection_id@,
                    ConnectionInfoView {
                        authenticated: true,
                        authenticated_at: final(self).conns()[connection_id@].authenticated_at,
                        user_id: new_user,
                        ..old_info
                    },
                )
                &&& final(self).handles() == old(self).handles()
                &&& final(self).users() == match new_user {
                    Some(u) => if old_info.user_id == Some(u) {
                        old(self).users()
                    } else {
                        user_insert(user_remove_opt(old(self).users(), old_info.user_id, connection_id@), u, connection_id@)
                    },
                    None => old(self).users(),
                }
            },
            !old(self).conns().contains_key(connection_id@) ==> (r matches Err(e) && e.code == ErrorCode::ProtocolError
                && e.message@ == not_found_message(connection_id@) && *final(self) == *old(self)),
            final(self).spec_send_timeout() == old(self).spec_send_timeout(),
            final(self).spec_fanout_concurrency() == old(self).spec_fanout_concurrency(),
            final(self).spec_write_queue_capacity() == old(self).spec_write_queue_capacity(),
    {
        let now = current_timestamp_ms();
        self.set_connection_authenticated_at(connection_id, user_id, now)
    }


    /// Stores a connection's negotiated device, encoding and metadata (the
    /// metadata entries are set over the existing ones). Its user becomes
    /// `user_id` when given, else stays; the index follows. Negotiation is
    /// not marked complete. Unknown ids are an error.
    pub fn update_connection_negotiation(
        &mut self,
        connection_id: &str,
        device_info: Option<DeviceInfo>,
        serialization_format: SerializationFormat,
        compression: CompressionAlgorithm,
        encryption: EncryptionAlgorithm,
        user_id: Option<String>,
        metadata: Option<StringPairs>,
    ) -> (r: Result<(), FlareError>)
        requires
            old(self).wf(),
        ensures
            final(self).wf(),
            old(self).conns().contains_key(connection_id@) ==> {
                let old_info = old(self).conns()[connection_id@];
                let new_user = match user_id {
                    Some(u) => Some(u@),
                    None => old_info.user_id,
                };
                &&& r is Ok
                &&& final(self).conns() == old(self).conns().insert(
                    connection_id@,
                    ConnectionInfoView {
                        device_info: opt_device_view(device_info),
                        serialization_format,
                        compression,
                        encryption,
                        metadata: match metadata {
                            Some(m) => pairs_merge(old_info.metadata, pairs_view(m@)),
                            None => old_info.metadata,
                        },
                        user_id: new_user,
                        ..old_info
                    },
                )
                &&& final(self).handles() == old(self).handles()
                &&& final(self).users() == match new_user {
                    Some(u) => if old_info.user_id == Some(u) {
                        old(self).users()
                    } else {
                        user_insert(user_remove_opt(old(self).users(), old_info.user_id, connection_id@), u, connection_id@)
                    },
                    None => old(self).users(),
                }
            },
            !old(self).conns().contains_key(connection_id@) ==> (r matches Err(e) && e.code == ErrorCode::ProtocolError
                && e.message@ == not_found_message(connection_id@) && *final(self) == *old(self)),
            final(self).spec_send_timeout() == old(self).spec_send_timeout(),
            final(self).spec_fanout_concurrency() == old(self).spec_fanout_concurrency(),
            final(self).spec_write_queue_capacity() == old(self).spec_write_queue_capacity(),
    {
        self.apply_negotiation(connection_id, device_info, serialization_format, compression, encryption, user_id, metadata, false)
    }

    /// Stores a connection's negotiated device and encoding once CONNECT has
    /// been acknowledged, and marks negotiation complete. Its user becomes
    /// `user_id` when given, else stays; the index follows. Unknown ids are
    /// an error.
    pub fn update_connection_negotiation_with_pipeline(
        &mut self,
        connection_id: &str,
        device_info: Option<DeviceInfo>,
        serialization_format: SerializationFormat,
        compression: CompressionAlgorithm,
        encryption: EncryptionAlgorithm,
        user_id: Option<String>,
    ) -> (r: Result<(), FlareError>)
        requires
            old(self).wf(),
        ensures
            final(self).wf(),
            old(self).conns().contains_key(connection_id@) ==> {
                let old_info = old(self).conns()[connection_id@];
                let new_user = match user_id {
                    Some(u) => Some(u@),
                    None => old_info.user_id,
                };
                &&& r is Ok
                &&& final(self).conns() == old(self).conns().insert(
                    connection_id@,
                    ConnectionInfoView {
                        device_info: opt_device_view(device_info),
                        serialization_format,
                        compression,
                        encryption,
                        negotiation_completed: true,
                        user_id: new_user,
                        ..old_info
                    },
                )
                &&& final(self).handles() == old(self).handles()
                &&& final(self).users() == match new_user {
                    Some(u) => if old_info.user_id == Some(u) {
                        old(self).users()
                    } else {
                        user_insert(user_remove_opt(old(self).users(), old_info.user_id, connection_id@), u, connection_id@)
                    },
                    None => old(self).users(),
                }
            },
            !old(self).conns().contains_key(connection_id@) ==> (r matches Err(e) && e.code == ErrorCode::ProtocolError
                && e.message@ == not_found_message(connection_id@) && *final(self) == *old(self)),
            final(self).spec_send_timeout() == old(self).spec_send_timeout(),
            final(self).spec_fanout_concurrency() == old(self).spec_fanout_concurrency(),
            final(self).spec_write_queue_capacity() == old(self).spec_write_queue_capacity(),
    {
        self.apply_negotiation(connection_id, device_info, serialization_format, compression, encryption, user_id, None, true)
    }

    fn apply_negotiation(
        &mut self,
        connection_id: &str,
        device_info: Option<DeviceInfo>,
        serialization_format: SerializationFormat,
        compression: CompressionAlgorithm,
        encryption: EncryptionAlgorithm,
        user_id: Option<String>,
        metadata: Option<StringPairs>,
        complete: bool,
    ) -> (r: Result<(), FlareError>)
        requires
            old(self).wf(),
        ensures
            final(self).wf(),
            old(self).conns().contains_key(connection_id@) ==> {
                let old_info = old(self).conns()[connection_id@];
                let new_user = match user_id {
                    Some(u) => Some(u@),
                    None => old_info.user_id,
                };
                &&& r is Ok
                &&& final(self).conns() == old(self).conns().insert(
                    connection_id@,
                    ConnectionInfoView {
                        device_info: opt_device_view(device_info),
                        serialization_format,
                        compression,
                        encryption,
                        metadata: match metadata {
                            Some(m) => pairs_merge(old_info.metadata, pairs_view(m@)),
                            None => old_info.metadata,
                        },
                        negotiation_completed: complete || old_info.negotiation_completed,
                        user_id: new_user,
                        ..old_info
                    },
                )
                &&& final(self).handles() == old(self).handles()
                &&& final(self).users() == match new_user {
                    Some(u) => if old_info.user_id == Some(u) {
                        old(self).users()
                    } else {
                        user_insert(user_remove_opt(old(self).users(), old_info.user_id, connection_id@), u, connection_id@)
                    },
                    None => old(self).users(),
                }
            },
            !old(self).conns().contains_key(connection_id@) ==> (r matches Err(e) && e.code == ErrorCode::ProtocolError
                && e.message@ == not_found_message(connection_id@) && *final(self) == *old(self)),
            final(self).spec_send_timeout() == old(self).spec_send_timeout(),
            final(self).spec_fanout_concurrency() == old(self).spec_fanout_concurrency(),
            final(self).spec_write_queue_capacity() == old(self).spec_write_queue_capacity(),
    {
        let i = match self.find_entry(connection_id) {
            None => {
                proof {
                    lemma_kv_absent(self.conn_ids(), self.infos(), connection_id@);
                }
                return Err(not_found(connection_id));
            },
            Some(i) => i,
        };
        let ghost k = connection_id@;
        let ghost old_conns = self.conns();
        let ghost old_users = self.users();
        proof {
            lemma_kv_at(self.conn_ids(), self.infos(), i as int);
            self.lemma_ids();
        }
        let mut info = self.entries[i].info.copy_info();
        let old_user = crate::device::copy_opt_string(&info.user_id);
        info.device_info = device_info;
        info.serialization_format = serialization_format;
        info.compression = compression;
        info.encryption = encryption;
        if let Some(m) = metadata {
            merge_string_pairs(&mut info.metadata, m);
        }
        if complete {
            info.negotiation_completed = true;
        }
        let final_user = match user_id {
            Some(u) => Some(u),
            None => crate::device::copy_opt_string(&info.user_id),
        };
        info.user_id = crate::device::copy_opt_string(&final_user);
        let ghost iv = info@;
        proof {
            match opt_view(final_user) {
                Some(u) => {
                    if old_conns[k].user_id == Some(u) {
                        lemma_same_user(old_conns, old_users, k, iv);
                        lemma_insert_present(old_conns, old_users, k, u);
                    } else {
                        lemma_rebind(old_conns, old_users, k, iv, u);
                        lemma_remove(old_conns, old_users, k);
                    }
                },
                None => {
                    lemma_same_user(old_conns, old_users, k, iv);
                },
            }
        }
        self.replace_info_at(i, info);
        self.apply_user(connection_id, old_user, final_user);
        Ok(())
    }

    /// Records that the client confirmed the negotiation. Unknown ids, and
    /// connections whose negotiation is not complete, are errors.
    pub fn mark_negotiation_confirmed(&mut self, connection_id: &str) -> (r: Result<(), FlareError>)
        requires
            old(self).wf(),
        ensures
            final(self).wf(),
            old(self).conns().contains_key(connection_id@) && old(self).conns()[connection_id@].negotiation_completed ==> {
                &&& r is Ok
                &&& final(self).conns() == old(self).conns().insert(
                    connection_id@,
                    ConnectionInfoView { negotiation_confirmed: true, ..old(self).conns()[connection_id@] },
                )
                &&& final(self).handles() == old(self).handles()
                &&& final(self).users() == old(self).users()
            },
            old(self).conns().contains_key(connection_id@) && !old(self).conns()[connection_id@].negotiation_completed
                ==> (r matches Err(e) && e.code == ErrorCode::ProtocolError && e.message@ == "Cannot confirm negotiation for connection "@
                + connection_id@ + ": negotiation not completed"@ && *final(self) == *old(self)),
            !old(self).conns().contains_key(connection_id@) ==> (r matches Err(e) && e.code == ErrorCode::ProtocolError
                && e.message@ == not_found_message(connection_id@) && *final(self) == *old(self)),
            final(self).spec_send_timeout() == old(self).spec_send_timeout(),
            final(self).spec_fanout_concurrency() == old(self).spec_fanout_concurrency(),
            final(self).spec_write_queue_capacity() == old(self).spec_write_queue_capacity(),
    {
        let i = match self.find_entry(connection_id) {
            None => {
                proof {
                    lemma_kv_absent(self.conn_ids(), self.infos(), connection_id@);
                }
                return Err(not_found(connection_id));
            },
            Some(i) => i,
        };
        proof {
            lemma_kv_at(self.conn_ids(), self.infos(), i as int);
            self.lemma_ids();
        }
        if !self.entries[i].info.negotiation_completed {
            return Err(
                FlareError::protocol_error(
                    concat3("Cannot confirm negotiation for connection ", connection_id, ": negotiation not completed"),
                ),
            );
        }
        let mut info = self.entries[i].info.copy_info();
        info.negotiation_confirmed = true;
        proof {
            lemma_same_user(self.conns(), self.users(), connection_id@, info@);
        }
        self.replace_info_at(i, info);
        Ok(())
    }


    /// Unregisters every connection idle for longer than `timeout` ms at
    /// `now`, and returns their ids, each once.
    pub fn cleanup_timeout_connections_at(&mut self, timeout: u64, now: u64) -> (removed: Vec<String>)
        requires
            old(self).wf(),
        ensures
            final(self).wf(),
            final(self).conns() == active_only(old(self).conns(), timeout, now),
            final(self).handles() == old(self).handles().restrict(final(self).conns().dom()),
            ids_view(removed@).no_duplicates(),
            forall|k: Seq<char>| #[trigger] ids_view(removed@).contains(k) <==> (old(self).conns().contains_key(k)
                && idle_longer_than(old(self).conns()[k], timeout, now)),
            final(self).spec_send_timeout() == old(self).spec_send_timeout(),
            final(self).spec_fanout_concurrency() == old(self).spec_fanout_concurrency(),
            final(self).spec_write_queue_capacity() == old(self).spec_write_queue_capacity(),
    {
        let ghost c0 = self.conns();
        let ghost h0 = self.handles();
        let mut removed: Vec<String> = Vec::new();
        let mut i: usize = 0;
        while i < self.entries.len()
            invariant
                self.wf(),
                i <= self.entries@.len(),
                self.send_timeout == old(self).send_timeout,
                self.fanout_concurrency == old(self).fanout_concurrency,
                self.write_queue_capacity == old(self).write_queue_capacity,
                c0 == old(self).conns(),
                h0 == old(self).handles(),
                forall|j: int| 0 <= j < i ==> !idle_longer_than(#[trigger] self.infos()[j], timeout, now),
                forall|k: Seq<char>| #[trigger] self.conns().contains_key(k) ==> c0.contains_key(k) && self.conns()[k]
                    == c0[k] && self.handles()[k] == h0[k],
                forall|k: Seq<char>| #[trigger] c0.contains_key(k) && !self.conns().contains_key(k) ==> idle_longer_than(
                    c0[k],
                    timeout,
                    now,
                ),
                forall|k: Seq<char>| #[trigger] c0.contains_key(k) && !idle_longer_than(c0[k], timeout, now) ==> self.conns().contains_key(k),
                ids_view(removed@).no_duplicates(),
                forall|k: Seq<char>| #[trigger] ids_view(removed@).contains(k) <==> (c0.contains_key(k) && !self.conns().contains_key(k)),
            decreases self.entries@.len() - i,
        {
            proof {
                lemma_kv_at(self.conn_ids(), self.infos(), i as int);
                self.lemma_ids();
            }
            if self.entries[i].info.is_timeout_at(timeout, now) {
                let ghost before = self.conns();
                let ghost hbefore = self.handles();
                let ghost k = self.conn_ids()[i as int];
                let ghost infos_before = self.infos();
                let e = self.remove_entry_at(i);
                let id = e.info.connection_id;
                proof {
                    assert(!ids_view(removed@).contains(k));
                    lemma_ids_push(removed@, id);
                    assert forall|a: int, b: int| 0 <= a < ids_view(removed@.push(id)).len() && 0 <= b < ids_view(removed@.push(id)).len() && a != b
                        implies ids_view(removed@.push(id))[a] != ids_view(removed@.push(id))[b] by {
                        if a < removed@.len() && b < removed@.len() {
                        } else if a == removed@.len() {
                            assert(ids_view(removed@).contains(ids_view(removed@.push(id))[b]));
                        } else {
                            assert(ids_view(removed@).contains(ids_view(removed@.push(id))[a]));
                        }
                    }
                    assert forall|j: int| 0 <= j < i implies !idle_longer_than(#[trigger] self.infos()[j], timeout, now) by {
                        assert(self.infos()[j] == infos_before[j]);
                    }
                }
                let ghost rv = ids_view(removed@);
                removed.push(id);
                proof {
                    assert(ids_view(removed@) == rv.push(k));
                    assert(before.contains_key(k));
                    assert(self.conns() == before.remove(k));
                    assert forall|x: Seq<char>| #[trigger] ids_view(removed@).contains(x) <==> (c0.contains_key(x)
                        && !self.conns().contains_key(x)) by {
                        if ids_view(removed@).contains(x) {
                            let j = choose|j: int| 0 <= j < ids_view(removed@).len() && #[trigger] ids_view(removed@)[j] == x;
                            if j < rv.len() {
                                assert(rv[j] == x);
                                assert(rv.contains(x));
                            }
                        }
                        if c0.contains_key(x) && !self.conns().contains_key(x) && x != k {
                            assert(!before.contains_key(x));
                            assert(rv.contains(x));
                            let j = choose|j: int| 0 <= j < rv.len() && #[trigger] rv[j] == x;
                            assert(ids_view(removed@)[j] == x);
                        }
                        if x == k {
                            assert(ids_view(removed@)[rv.len() as int] == x);
                        }
                    }
                }
            } else {
                i += 1;
            }
        }
        proof {
            self.lemma_ids();
            assert forall|k: Seq<char>| #[trigger] self.conns().contains_key(k) implies !idle_longer_than(c0[k], timeout, now) by {
                let j = choose|j: int| 0 <= j < self.conn_ids().len() && self.conn_ids()[j] == k;
                lemma_kv_at(self.conn_ids(), self.infos(), j);
            }
            assert(self.conns() =~= active_only(c0, timeout, now));
            assert(self.handles() =~= h0.restrict(self.conns().dom()));
        }
        removed
    }

    /// [`ConnectionManager::cleanup_timeout_connections_at`] at the current time.
    pub fn cleanup_timeout_connections(&mut self, timeout: u64) -> (removed: Vec<String>)
        requires
            old(self).wf(),
        ensures
            final(self).wf(),
            exists|now: u64| #[trigger] active_only(old(self).conns(), timeout, now) == final(self).conns()
                && (forall|k: Seq<char>| #[trigger] ids_view(removed@).contains(k) <==> (old(self).conns().contains_key(k)
                && idle_longer_than(old(self).conns()[k], timeout, now))),
            final(self).handles() == old(self).handles().restrict(final(self).conns().dom()),
            ids_view(removed@).no_duplicates(),
            final(self).spec_send_timeout() == old(self).spec_send_timeout(),
            final(self).spec_fanout_concurrency() == old(self).spec_fanout_concurrency(),
            final(self).spec_write_queue_capacity() == old(self).spec_write_queue_capacity(),
    {
        let now = current_timestamp_ms();
        self.cleanup_timeout_connections_at(timeout, now)
    }

    /// Records activity at `now` for each registered id of `ids` and returns
    /// how many positions of `ids` named a registered connection.
    pub fn update_connections_active_at(&mut self, ids: &Vec<String>, now: u64) -> (updated: usize)
        requires
            old(self).wf(),
        ensures
            final(self).wf(),
            final(self).conns() == touch_all(old(self).conns(), ids_view(ids@), now),
            final(self).handles() == old(self).handles(),
            final(self).users() == old(self).users(),
            updated == count_registered(old(self).conns().dom(), ids_view(ids@)),
            final(self).spec_send_timeout() == old(self).spec_send_timeout(),
            final(self).spec_fanout_concurrency() == old(self).spec_fanout_concurrency(),
            final(self).spec_write_queue_capacity() == old(self).spec_write_queue_capacity(),
    {
        let ghost c0 = self.conns();
        let ghost all = ids_view(ids@);
        let mut updated: usize = 0;
        let mut p: usize = 0;
        assert(touch_all(c0, all.subrange(0, 0), now) =~= c0);
        while p < ids.len()
            invariant
                self.wf(),
                p <= ids@.len(),
                all == ids_view(ids@),
                c0 == old(self).conns(),
                self.conns() == touch_all(c0, all.subrange(0, p as int), now),
                self.handles() == old(self).handles(),
                self.users() == old(self).users(),
                updated == count_registered(c0.dom(), all.subrange(0, p as int)),
                updated <= p,
                self.send_timeout == old(self).send_timeout,
                self.fanout_concurrency == old(self).fanout_concurrency,
                self.write_queue_capacity == old(self).write_queue_capacity,
            decreases ids@.len() - p,
        {
            let ghost pre = all.subrange(0, p as int);
            let ghost k = all[p as int];
            assert(all.subrange(0, p + 1).drop_last() =~= pre);
            assert(all.subrange(0, p + 1).last() == k);
            let _ = self.update_connection_active_at(ids[p].as_str(), now);
            proof {
                assert(self.conns() =~= touch_all(c0, all.subrange(0, p + 1), now)) by {
                    lemma_take_next(all, p as int);
                    assert(all.take(p + 1) =~= all.subrange(0, p + 1));
                    assert(all.take(p as int) =~= pre);
                }
            }
            if self.find_entry(ids[p].as_str()).is_some() {
                updated += 1;
            }
            proof {
                self.lemma_ids();
                assert(self.conns().dom() =~= c0.dom());
            }
            p += 1;
        }
        assert(all.subrange(0, ids@.len() as int) =~= all);
        updated
    }

    /// [`ConnectionManager::update_connections_active_at`] at the current time.
    pub fn update_connections_active(&mut self, ids: &Vec<String>) -> (updated: usize)
        requires
            old(self).wf(),
        ensures
            final(self).wf(),
            exists|now: u64| #[trigger] touch_all(old(self).conns(), ids_view(ids@), now) == final(self).conns(),
            final(self).handles() == old(self).handles(),
            final(self).users() == old(self).users(),
            updated == count_registered(old(self).conns().dom(), ids_view(ids@)),
            final(self).spec_send_timeout() == old(self).spec_send_timeout(),
            final(self).spec_fanout_concurrency() == old(self).spec_fanout_concurrency(),
            final(self).spec_write_queue_capacity() == old(self).spec_write_queue_capacity(),
    {
        let now = current_timestamp_ms();
        self.update_connections_active_at(ids, now)
    }


    /// The registered connections, in registration order, that may be sent
    /// `frame`, leaving out `exclude` when given.
    pub fn frame_recipients(&self, frame: &Frame, exclude: Option<&str>) -> (r: Vec<String>)
        requires
            self.wf(),
        ensures
            ids_view(r@) == self.conn_ids().filter(|k: Seq<char>| may_receive(self.conns()[k], *frame) && match exclude {
                Some(x) => k != x@,
                None => true,
            }),
    {
        let ghost pred = |k: Seq<char>| may_receive(self.conns()[k], *frame) && match exclude {
            Some(x) => k != x@,
            None => true,
        };
        let mut r: Vec<String> = Vec::new();
        let mut i: usize = 0;
        proof {
            reveal(Seq::filter);
            assert(self.conn_ids().subrange(0, 0).filter(pred) =~= Seq::empty());
        }
        while i < self.entries.len()
            invariant
                self.wf(),
                i <= self.entries@.len(),
                ids_view(r@) == self.conn_ids().subrange(0, i as int).filter(pred),
                pred == (|k: Seq<char>| may_receive(self.conns()[k], *frame) && match exclude {
                    Some(x) => k != x@,
                    None => true,
                }),
            decreases self.entries@.len() - i,
        {
            let ghost k = self.conn_ids()[i as int];
            proof {
                lemma_kv_at(self.conn_ids(), self.infos(), i as int);
                reveal(Seq::filter);
                assert(self.conn_ids().subrange(0, i + 1).drop_last() =~= self.conn_ids().subrange(0, i as int));
                assert(self.conn_ids().subrange(0, i + 1).last() == k);
            }
            let e = &self.entries[i];
            let allowed = ensure_frame_allowed_for_connection(e.info.connection_id.as_str(), &e.info, frame).is_ok();
            let excluded = match exclude {
                Some(x) => str_eq(e.info.connection_id.as_str(), x),
                None => false,
            };
            if allowed && !excluded {
                let s = e.info.connection_id.clone();
                proof {
                    lemma_ids_push(r@, s);
                }
                r.push(s);
            }
            i += 1;
        }
        assert(self.conn_ids().subrange(0, self.entries@.len() as int) =~= self.conn_ids());
        r
    }

    /// The connections of `user_id`, in binding order, that may be sent `frame`.
    pub fn user_frame_recipients(&self, user_id: &str, frame: &Frame) -> (r: Vec<String>)
        requires
            self.wf(),
        ensures
            ids_view(r@) == (if self.users().contains_key(user_id@) { self.users()[user_id@] } else { Seq::empty() }).filter(
                |k: Seq<char>| may_receive(self.conns()[k], *frame),
            ),
    {
        let ids = self.get_user_connections(user_id);
        let ghost all = ids_view(ids@);
        let ghost pred = |k: Seq<char>| may_receive(self.conns()[k], *frame);
        let mut r: Vec<String> = Vec::new();
        let mut p: usize = 0;
        proof {
            reveal(Seq::filter);
            assert(all.subrange(0, 0).filter(pred) =~= Seq::empty());
        }
        while p < ids.len()
            invariant
                self.wf(),
                p <= ids@.len(),
                all == ids_view(ids@),
                all == if self.users().contains_key(user_id@) { self.users()[user_id@] } else { Seq::empty() },
                ids_view(r@) == all.subrange(0, p as int).filter(pred),
                pred == (|k: Seq<char>| may_receive(self.conns()[k], *frame)),
            decreases ids@.len() - p,
        {
            let ghost k = all[p as int];
            proof {
                reveal(Seq::filter);
                assert(all.subrange(0, p + 1).drop_last() =~= all.subrange(0, p as int));
                assert(all.subrange(0, p + 1).last() == k);
                assert(self.users().contains_key(user_id@));
                assert(self.users()[user_id@][p as int] == k);
                assert(self.conns().contains_key(k));
            }
            match self.find_entry(ids[p].as_str()) {
                Some(i) => {
                    proof {
                        lemma_kv_at(self.conn_ids(), self.infos(), i as int);
                    }
                    let e = &self.entries[i];
                    if ensure_frame_allowed_for_connection(e.info.connection_id.as_str(), &e.info, frame).is_ok() {
                        let s = ids[p].clone();
                        proof {
                            lemma_ids_push(r@, s);
                        }
                        r.push(s);
                    }
                },
                None => {
                    proof {
                        lemma_kv_absent(self.conn_ids(), self.infos(), k);
                    }
                },
            }
            p += 1;
        }
        assert(all.subrange(0, ids@.len() as int) =~= all);
        r
    }

    /// The handle and a copy of the state of a registered connection.
    pub fn get_connection(&self, connection_id: &str) -> (r: Option<(&H, ConnectionInfo)>)
        requires
            self.wf(),
        ensures
            match r {
                Some((h, info)) => self.conns().contains_key(connection_id@) && *h == self.handles()[connection_id@]
                    && info@ == self.conns()[connection_id@],
                None => !self.conns().contains_key(connection_id@),
            },
    {
        match self.find_entry(connection_id) {
            None => {
                proof {
                    lemma_kv_absent(self.conn_ids(), self.infos(), connection_id@);
                }
                None
            },
            Some(i) => {
                proof {
                    lemma_kv_at(self.conn_ids(), self.infos(), i as int);
                    lemma_kv_at(self.conn_ids(), self.handle_seq(), i as int);
                }
                let e = &self.entries[i];
                Some((&e.handle, e.info.copy_info()))
            },
        }
    }

    /// The ids of a user's connections, in binding order (empty for an
    /// unknown user).
    pub fn get_user_connections(&self, user_id: &str) -> (r: Vec<String>)
        requires
            self.wf(),
        ensures
            ids_view(r@) == if self.users().contains_key(user_id@) { self.users()[user_id@] } else { Seq::empty() },
    {
        match self.find_user(user_id) {
            None => {
                proof {
                    lemma_kv_absent(self.user_ids(), self.user_lists(), user_id@);
                }
                let r: Vec<String> = Vec::new();
                assert(ids_view(r@) =~= Seq::empty());
                r
            },
            Some(j) => {
                proof {
                    lemma_kv_at(self.user_ids(), self.user_lists(), j as int);
                }
                copy_ids(&self.user_index[j].connection_ids)
            },
        }
    }

    /// The ids of all registered connections, each once.
    pub fn list_connections(&self) -> (r: Vec<String>)
        requires
            self.wf(),
        ensures
            ids_view(r@) == self.conn_ids(),
    {
        let mut r: Vec<String> = Vec::new();
        let mut i: usize = 0;
        while i < self.entries.len()
            invariant
                i <= self.entries@.len(),
                ids_view(r@) == self.conn_ids().subrange(0, i as int),
            decreases self.entries@.len() - i,
        {
            let s = self.entries[i].info.connection_id.clone();
            proof {
                lemma_ids_push(r@, s);
            }
            r.push(s);
            assert(ids_view(r@) =~= self.conn_ids().subrange(0, i + 1));
            i += 1;
        }
        assert(self.conn_ids().subrange(0, self.entries@.len() as int) =~= self.conn_ids());
        r
    }

    /// The id and a copy of the state of every registered connection, in
    /// registration order.
    pub fn connection_snapshots(&self) -> (r: Vec<(String, ConnectionInfo)>)
        requires
            self.wf(),
        ensures
            r@.len() == self.conn_ids().len(),
            forall|i: int| 0 <= i < r@.len() ==> {
                &&& #[trigger] r@[i].0@ == self.conn_ids()[i]
                &&& self.conns().contains_key(r@[i].0@)
                &&& r@[i].1@ == self.conns()[r@[i].0@]
            },
    {
        let mut r: Vec<(String, ConnectionInfo)> = Vec::new();
        let mut i: usize = 0;
        while i < self.entries.len()
            invariant
                self.wf(),
                i <= self.entries@.len(),
                r@.len() == i,
                forall|j: int| 0 <= j < i ==> {
                    &&& #[trigger] r@[j].0@ == self.conn_ids()[j]
                    &&& self.conns().contains_key(r@[j].0@)
                    &&& r@[j].1@ == self.conns()[r@[j].0@]
                },
            decreases self.entries@.len() - i,
        {
            proof {
                lemma_kv_at(self.conn_ids(), self.infos(), i as int);
            }
            let e = &self.entries[i];
            r.push((e.info.connection_id.clone(), e.info.copy_info()));
            i += 1;
        }
        r
    }

    /// Number of registered connections.
    pub fn connection_count(&self) -> (n: usize)
        requires
            self.wf(),
        ensures
            n == self.conns().len(),
    {
        proof {
            self.lemma_lens();
        }
        self.entries.len()
    }

    /// Number of users with at least one registered connection.
    pub fn user_count(&self) -> (n: usize)
        requires
            self.wf(),
        ensures
            n == self.users().len(),
    {
        proof {
            self.lemma_lens();
        }
        self.user_index.len()
    }

    /// Connection and user counts.
    pub fn stats(&self) -> (s: ConnectionStats)
        requires
            self.wf(),
        ensures
            s.total_connections == self.conns().len(),
            s.total_users == self.users().len(),
    {
        ConnectionStats { total_connections: self.connection_count(), total_users: self.user_count() }
    }
}


/// After the timeout sweep at `now`, no remaining connection has been idle
/// longer than the timeout, and every connection that had not is kept.
pub proof fn lemma_sweep_keeps_exactly_active(conns: ConnTable, timeout: u64, now: u64)
    ensures
        forall|k: Seq<char>| #[trigger] active_only(conns, timeout, now).contains_key(k) ==> !idle_longer_than(
            active_only(conns, timeout, now)[k],
            timeout,
            now,
        ),
        forall|k: Seq<char>|
            conns.contains_key(k) && !idle_longer_than(conns[k], timeout, now) ==> #[trigger] active_only(
                conns,
                timeout,
                now,
            ).contains_key(k) && active_only(conns, timeout, now)[k] == conns[k],
{
}

/// A batch activity update records `now` for every registered id of the
/// batch, and leaves the other connections as they were.
pub proof fn lemma_batch_touch(conns: ConnTable, ids: Seq<Seq<char>>, now: u64, k: Seq<char>)
    requires
        conns.contains_key(k),
    ensures
        touch_all(conns, ids, now).contains_key(k),
        ids.contains(k) ==> touch_all(conns, ids, now)[k] == (ConnectionInfoView { last_active: now, ..conns[k] }),
        !ids.contains(k) ==> touch_all(conns, ids, now)[k] == conns[k],
        touch_all(conns, ids, now).dom() == conns.dom(),
{
    assert(touch_all(conns, ids, now).dom() =~= conns.dom());
}

/// A timeout sweep measures idleness from the last recorded activity alone:
/// a connection whose activity was recorded at `t` (whatever its creation
/// time or other state) stays when at most `timeout` ms have passed since
/// `t` at `now`, and is swept when more have.
pub proof fn lemma_sweep_measures_from_last_activity(conns: ConnTable, id: Seq<char>, t: u64, timeout: u64, now: u64)
    requires
        conns.contains_key(id),
    ensures
        ({
            let touched = conns.insert(id, ConnectionInfoView { last_active: t, ..conns[id] });
            &&& now <= t || now - t <= timeout ==> active_only(touched, timeout, now).contains_key(id)
                && active_only(touched, timeout, now)[id] == touched[id]
            &&& now > t && now - t > timeout ==> !active_only(touched, timeout, now).contains_key(id)
        }),
{
}

/// Before authenticating, a connection may be sent the handshake and
/// control frames (CONNECT_ACK, PING, PONG, ERROR, CLOSE), whatever else its
/// state holds; an application payload waits for authentication.
pub proof fn lemma_frames_before_auth(info: ConnectionInfoView, f: Frame)
    ensures
        frame_system_command(f) matches Some(c) && (c.command_type == SystemCommandType::ConnectAck
            || c.command_type == SystemCommandType::Ping || c.command_type == SystemCommandType::Pong
            || c.command_type == SystemCommandType::Error || c.command_type == SystemCommandType::Close) ==> may_receive(
            info,
            f,
        ),
        !info.authenticated && frame_system_command(f) is None ==> !may_receive(info, f),
        info.authenticated ==> may_receive(info, f),
{
}

} // verus!
