//! Users' authenticated connections, by platform, over a connection
//! manager: a connection first waits for credentials, then is bound to a
//! user on a platform; counters follow the population.

use crate::device::{copy_opt_string, opt_view, DevicePlatform, PlatformView};
use crate::error::{ErrorCode, FlareError};
use crate::keyed::{kv_map, kv_wf, lemma_kv_absent, lemma_kv_at, lemma_kv_len, lemma_kv_push, lemma_kv_remove, lemma_kv_update, lemma_take_next};
use crate::manager::ConnectionManager;
use crate::stats::{PendingAuthInfo, PendingAuthInfoView, UserConnectionStats};
use crate::strings::{concat3, str_eq};
use crate::utils::current_timestamp_ms;
use vstd::prelude::*;

verus! {

/// A user's connection on one platform; times in milliseconds.
#[derive(Debug, Clone)]
pub struct UserConnectionInfo {
    pub user_id: String,
    pub platform: DevicePlatform,
    pub device_id: Option<String>,
    pub connected_at: u64,
    pub last_activity: u64,
    pub is_authenticated: bool,
}

/// The view of a [`UserConnectionInfo`].
pub struct UserConnectionInfoView {
    pub user_id: Seq<char>,
    pub platform: PlatformView,
    pub device_id: Option<Seq<char>>,
    pub connected_at: u64,
    pub last_activity: u64,
    pub is_authenticated: bool,
}

impl View for UserConnectionInfo {
    type V = UserConnectionInfoView;

    open spec fn view(&self) -> UserConnectionInfoView {
        UserConnectionInfoView {
            user_id: self.user_id@,
            platform: self.platform@,
            device_id: opt_view(self.device_id),
            connected_at: self.connected_at,
            last_activity: self.last_activity,
            is_authenticated: self.is_authenticated,
        }
    }
}

impl UserConnectionInfo {
    /// A copy with the same view.
    pub fn copy_info(&self) -> (r: UserConnectionInfo)
        ensures
            r@ == self@,
    {
        UserConnectionInfo {
            user_id: self.user_id.clone(),
            platform: self.platform.copy_platform(),
            device_id: copy_opt_string(&self.device_id),
            connected_at: self.connected_at,
            last_activity: self.last_activity,
            is_authenticated: self.is_authenticated,
        }
    }
}

/// The connection each user has on each platform.
pub type UserPlatformTable = Map<Seq<char>, Map<PlatformView, UserConnectionInfoView>>;

/// The user and platform each authenticated connection is bound to.
pub type LinkTable = Map<Seq<char>, (Seq<char>, PlatformView)>;

/// Connections waiting for credentials.
pub type PendingAuthTable = Map<Seq<char>, PendingAuthInfoView>;

/// A connection registered at `now`, waiting for credentials.
pub open spec fn fresh_pending_auth(now: u64) -> PendingAuthInfoView {
    PendingAuthInfoView { connected_at: now, last_activity: now, platform: None, device_id: None }
}

/// The table once `info` is recorded as user `u`'s connection on platform
/// `p`.
pub open spec fn users_record(t: UserPlatformTable, u: Seq<char>, p: PlatformView, info: UserConnectionInfoView) -> UserPlatformTable {
    t.insert(u, (if t.contains_key(u) { t[u] } else { Map::empty() }).insert(p, info))
}

/// User `u` has connection info on platform `p`.
pub open spec fn has_platform(t: UserPlatformTable, u: Seq<char>, p: PlatformView) -> bool {
    t.contains_key(u) && t[u].contains_key(p)
}

/// The info recorded when `u` authenticates on `p` at `now`.
pub open spec fn authenticated_info(u: Seq<char>, p: PlatformView, device_id: Option<Seq<char>>, now: u64) -> UserConnectionInfoView {
    UserConnectionInfoView {
        user_id: u,
        platform: p,
        device_id: device_id,
        connected_at: now,
        last_activity: now,
        is_authenticated: true,
    }
}

/// The message of the refusal to authenticate a connection the underlying
/// manager does not know.
pub open spec fn missing_connection_message(id: Seq<char>) -> Seq<char> {
    "连接不存在: "@ + id
}

/// The table once user `u`'s connection on platform `p` is forgotten; a
/// user left with no platform is dropped.
pub open spec fn users_forget(t: UserPlatformTable, u: Seq<char>, p: PlatformView) -> UserPlatformTable {
    if t.contains_key(u) {
        let m = t[u].remove(p);
        if m.is_empty() {
            t.remove(u)
        } else {
            t.insert(u, m)
        }
    } else {
        t
    }
}

/// Forgetting `u` on `p` drops the user.
pub open spec fn forget_drops_user(t: UserPlatformTable, u: Seq<char>, p: PlatformView) -> bool {
    t.contains_key(u) && t[u].remove(p).is_empty()
}

/// One less, but not below zero.
pub open spec fn dec_floor(n: usize) -> usize {
    if n > 0 {
        (n - 1) as usize
    } else {
        0
    }
}

/// The state of the users, bindings and counters after the bound
/// connection `c` goes away.
pub open spec fn unlink_users(t: UserPlatformTable, l: LinkTable, c: Seq<char>) -> UserPlatformTable {
    if l.contains_key(c) {
        users_forget(t, l[c].0, l[c].1)
    } else {
        t
    }
}

/// The counters after the connection `c` goes away.
pub open spec fn unlink_stats(s: UserConnectionStats, t: UserPlatformTable, l: LinkTable, c: Seq<char>) -> UserConnectionStats {
    UserConnectionStats {
        active_users: if l.contains_key(c) && forget_drops_user(t, l[c].0, l[c].1) {
            (s.active_users - 1) as usize
        } else {
            s.active_users
        },
        active_connections: dec_floor(s.active_connections),
        ..s
    }
}

/// The message of the refusal to disconnect a connection that is not
/// waiting for credentials.
pub open spec fn not_pending_message(id: Seq<char>) -> Seq<char> {
    "连接不在待验证列表中: "@ + id
}

/// The connections bound to `u` that the underlying manager still knows.
pub open spec fn live_user_connections(l: LinkTable, u: Seq<char>, live: Set<Seq<char>>) -> Set<Seq<char>> {
    Set::new(|k: Seq<char>| l.contains_key(k) && l[k].0 == u && live.contains(k))
}

/// A connection registered at `info.connected_at` has waited longer than
/// `timeout` at `now`.
pub open spec fn auth_wait_expired(info: PendingAuthInfoView, timeout: u64, now: u64) -> bool {
    now > info.connected_at && now - info.connected_at > timeout
}

/// The waiting connections the sweep at `now` drops: those that waited too
/// long and that the underlying manager (whose connections are `live`)
/// removes.
pub open spec fn expired_pending(p: PendingAuthTable, live: Set<Seq<char>>, timeout: u64, now: u64) -> Set<Seq<char>> {
    Set::new(|k: Seq<char>| p.contains_key(k) && auth_wait_expired(p[k], timeout, now) && live.contains(k))
}

/// The platforms the connections in `d` are bound to.
pub open spec fn platforms_of(l: LinkTable, d: Set<Seq<char>>) -> Set<PlatformView> {
    Set::new(|q: PlatformView| exists|k: Seq<char>| #[trigger] d.contains(k) && l[k].1 == q)
}

/// The table once user `u`'s connections on the platforms `ps` are
/// forgotten; a user left with no platform is dropped.
pub open spec fn users_forget_all(t: UserPlatformTable, u: Seq<char>, ps: Set<PlatformView>) -> UserPlatformTable {
    if t.contains_key(u) {
        let m = t[u].remove_keys(ps);
        if m.is_empty() {
            t.remove(u)
        } else {
            t.insert(u, m)
        }
    } else {
        t
    }
}

/// Forgetting `u` on the platforms `ps` drops the user.
pub open spec fn forget_all_drops_user(t: UserPlatformTable, u: Seq<char>, ps: Set<PlatformView>) -> bool {
    t.contains_key(u) && t[u].remove_keys(ps).is_empty()
}

/// `a` less `n`, but not below zero.
pub open spec fn sub_floor(a: usize, n: nat) -> usize {
    if a >= n {
        (a - n) as usize
    } else {
        0
    }
}

proof fn lemma_platforms_of_insert(l: LinkTable, d: Set<Seq<char>>, k: Seq<char>)
    ensures
        platforms_of(l, d.insert(k)) == platforms_of(l, d).insert(l[k].1),
{
    assert forall|q: PlatformView| #[trigger] platforms_of(l, d.insert(k)).contains(q) <==> platforms_of(l, d).insert(l[k].1).contains(q) by {
        if platforms_of(l, d.insert(k)).contains(q) {
            let w = choose|w: Seq<char>| #[trigger] d.insert(k).contains(w) && l[w].1 == q;
            if w != k {
                assert(d.contains(w));
            }
        }
        if platforms_of(l, d).contains(q) {
            let w = choose|w: Seq<char>| #[trigger] d.contains(w) && l[w].1 == q;
            assert(d.insert(k).contains(w));
        }
        if q == l[k].1 {
            assert(d.insert(k).contains(k));
        }
    }
    assert(platforms_of(l, d.insert(k)) =~= platforms_of(l, d).insert(l[k].1));
}

proof fn lemma_forget_step(t: UserPlatformTable, u: Seq<char>, ps: Set<PlatformView>, first: bool, p: PlatformView)
    ensures
        users_forget(if first { t } else { users_forget_all(t, u, ps) }, u, p) == users_forget_all(
            t,
            u,
            if first { set![p] } else { ps.insert(p) },
        ),
        forget_drops_user(if first { t } else { users_forget_all(t, u, ps) }, u, p) == (forget_all_drops_user(
            t,
            u,
            if first { set![p] } else { ps.insert(p) },
        ) && (first || !forget_all_drops_user(t, u, ps))),
{
    if t.contains_key(u) {
        if first {
            assert(t[u].remove(p) =~= t[u].remove_keys(set![p]));
        } else {
            let m = t[u].remove_keys(ps);
            assert(m.remove(p) =~= t[u].remove_keys(ps.insert(p)));
            if m.is_empty() {
                assert(t[u].remove_keys(ps.insert(p)) =~= Map::empty());
            }
        }
    }
}

/// The default time a connection may wait for credentials (ms).
pub const DEFAULT_AUTH_TIMEOUT_MS: u64 = 30_000;

fn find_row_platform(v: &Vec<UserConnectionInfo>, p: &DevicePlatform) -> (r: Option<usize>)
    ensures
        match r {
            Some(i) => i < v@.len() && row_keys(v@)[i as int] == p@,
            None => !row_keys(v@).contains(p@),
        },
{
    let mut i: usize = 0;
    while i < v.len()
        invariant
            i <= v@.len(),
            forall|j: int| 0 <= j < i ==> row_keys(v@)[j] != p@,
        decreases v@.len() - i,
    {
        if v[i].platform.same_as(p) {
            return Some(i);
        }
        i += 1;
    }
    None
}

struct UserRow {
    user_id: String,
    platforms: Vec<UserConnectionInfo>,
}

struct LinkRow {
    connection_id: String,
    user_id: String,
    platform: DevicePlatform,
}

struct PendingRow {
    connection_id: String,
    info: PendingAuthInfo,
}

/// The platforms of a list of connection infos, in order.
pub open spec fn row_keys(v: Seq<UserConnectionInfo>) -> Seq<PlatformView> {
    v.map_values(|e: UserConnectionInfo| e.platform@)
}

/// The views of a list of connection infos, in order.
pub open spec fn row_vals(v: Seq<UserConnectionInfo>) -> Seq<UserConnectionInfoView> {
    v.map_values(|e: UserConnectionInfo| e@)
}

/// A list of connection infos as a map by platform.
pub open spec fn row_map(v: Seq<UserConnectionInfo>) -> Map<PlatformView, UserConnectionInfoView> {
    kv_map(row_keys(v), row_vals(v))
}

spec fn row_wf(v: Seq<UserConnectionInfo>) -> bool {
    kv_wf(row_keys(v), row_vals(v)) && v.len() > 0
}

spec fn user_keys(v: Seq<UserRow>) -> Seq<Seq<char>> {
    v.map_values(|u: UserRow| u.user_id@)
}

spec fn user_maps(v: Seq<UserRow>) -> Seq<Map<PlatformView, UserConnectionInfoView>> {
    v.map_values(|u: UserRow| row_map(u.platforms@))
}

spec fn link_keys(v: Seq<LinkRow>) -> Seq<Seq<char>> {
    v.map_values(|l: LinkRow| l.connection_id@)
}

spec fn link_vals(v: Seq<LinkRow>) -> Seq<(Seq<char>, PlatformView)> {
    v.map_values(|l: LinkRow| (l.user_id@, l.platform@))
}

spec fn pend_keys(v: Seq<PendingRow>) -> Seq<Seq<char>> {
    v.map_values(|p: PendingRow| p.connection_id@)
}

spec fn pend_vals(v: Seq<PendingRow>) -> Seq<PendingAuthInfoView> {
    v.map_values(|p: PendingRow| p.info@)
}

/// Users' authenticated connections over the connection manager `H`
/// handles are registered with; the credential wait limit is in
/// milliseconds.
pub struct UserConnectionManager<H> {
    connection_manager: ConnectionManager<H>,
    users: Vec<UserRow>,
    connection_to_user: Vec<LinkRow>,
    pending_auth_connections: Vec<PendingRow>,
    stats: UserConnectionStats,
    auth_timeout: u64,
}

impl<H> UserConnectionManager<H> {
    /// The underlying connection manager.
    pub closed spec fn base(&self) -> ConnectionManager<H> {
        self.connection_manager
    }

    /// Each user's connection info, by platform.
    pub closed spec fn users(&self) -> UserPlatformTable {
        kv_map(user_keys(self.users@), user_maps(self.users@))
    }

    /// The user and platform of each bound connection.
    pub closed spec fn links(&self) -> LinkTable {
        kv_map(link_keys(self.connection_to_user@), link_vals(self.connection_to_user@))
    }

    /// Connections waiting for credentials.
    pub closed spec fn pending(&self) -> PendingAuthTable {
        kv_map(pend_keys(self.pending_auth_connections@), pend_vals(self.pending_auth_connections@))
    }

    /// The counters.
    pub closed spec fn spec_stats(&self) -> UserConnectionStats {
        self.stats
    }

    /// How long a connection may wait for credentials (ms).
    pub closed spec fn spec_auth_timeout(&self) -> u64 {
        self.auth_timeout
    }

    /// Keys are distinct in each table, the underlying manager is well
    /// formed, and the active-user counter covers every known user.
    pub closed spec fn wf(&self) -> bool {
        &&& self.connection_manager.wf()
        &&& kv_wf(user_keys(self.users@), user_maps(self.users@))
        &&& forall|j: int| 0 <= j < self.users@.len() ==> #[trigger] row_wf(self.users@[j].platforms@)
        &&& kv_wf(link_keys(self.connection_to_user@), link_vals(self.connection_to_user@))
        &&& kv_wf(pend_keys(self.pending_auth_connections@), pend_vals(self.pending_auth_connections@))
        &&& self.stats.active_users >= self.users@.len()
    }

    /// A manager over `connection_manager` with nobody known, started at
    /// `now`, whose connections may wait `auth_timeout` ms for credentials.
    pub fn with_config_at(connection_manager: ConnectionManager<H>, auth_timeout: u64, now: u64) -> (m: Self)
        requires
            connection_manager.wf(),
        ensures
            m.wf(),
            m.base() == connection_manager,
            m.users().is_empty(),
            m.links().is_empty(),
            m.pending().is_empty(),
            m.spec_stats() == (UserConnectionStats {
                total_users: 0,
                active_users: 0,
                total_connections: 0,
                active_connections: 0,
                pending_auth_connections: 0,
                total_messages: 0,
                started_at: now,
            }),
            m.spec_auth_timeout() == auth_timeout,
    {
        let m = UserConnectionManager {
            connection_manager,
            users: Vec::new(),
            connection_to_user: Vec::new(),
            pending_auth_connections: Vec::new(),
            stats: UserConnectionStats {
                total_users: 0,
                active_users: 0,
                total_connections: 0,
                active_connections: 0,
                pending_auth_connections: 0,
                total_messages: 0,
                started_at: now,
            },
            auth_timeout,
        };
        assert(m.users() =~= Map::empty());
        assert(m.links() =~= Map::empty());
        assert(m.pending() =~= Map::empty());
        m
    }

    /// [`UserConnectionManager::with_config_at`], started now.
    pub fn with_config(connection_manager: ConnectionManager<H>, auth_timeout: u64) -> (m: Self)
        requires
            connection_manager.wf(),
        ensures
            m.wf(),
            m.base() == connection_manager,
            m.users().is_empty(),
            m.links().is_empty(),
            m.pending().is_empty(),
            m.spec_stats().total_users == 0 && m.spec_stats().active_users == 0 && m.spec_stats().total_connections
                == 0 && m.spec_stats().active_connections == 0 && m.spec_stats().pending_auth_connections == 0
                && m.spec_stats().total_messages == 0,
            m.spec_auth_timeout() == auth_timeout,
    {
        let now = current_timestamp_ms();
        Self::with_config_at(connection_manager, auth_timeout, now)
    }

    /// A manager with the default credential wait
    /// ([`DEFAULT_AUTH_TIMEOUT_MS`]), started now.
    pub fn new(connection_manager: ConnectionManager<H>) -> (m: Self)
        requires
            connection_manager.wf(),
        ensures
            m.wf(),
            m.base() == connection_manager,
            m.users().is_empty(),
            m.links().is_empty(),
            m.pending().is_empty(),
            m.spec_stats().total_users == 0 && m.spec_stats().active_users == 0 && m.spec_stats().total_connections
                == 0 && m.spec_stats().active_connections == 0 && m.spec_stats().pending_auth_connections == 0
                && m.spec_stats().total_messages == 0,
            m.spec_auth_timeout() == DEFAULT_AUTH_TIMEOUT_MS,
    {
        Self::with_config(connection_manager, DEFAULT_AUTH_TIMEOUT_MS)
    }

    /// The underlying connection manager.
    pub fn get_connection_manager(&self) -> (r: &ConnectionManager<H>)
        requires
            self.wf(),
        ensures
            *r == self.base(),
            r.wf(),
    {
        &self.connection_manager
    }

    /// The counters.
    pub fn get_stats(&self) -> (s: UserConnectionStats)
        ensures
            s == self.spec_stats(),
    {
        self.stats
    }

    fn find_pending(&self, id: &str) -> (r: Option<usize>)
        ensures
            match r {
                Some(i) => i < self.pending_auth_connections@.len() && pend_keys(self.pending_auth_connections@)[i as int]
                    == id@,
                None => !pend_keys(self.pending_auth_connections@).contains(id@),
            },
    {
        let mut i: usize = 0;
        while i < self.pending_auth_connections.len()
            invariant
                i <= self.pending_auth_connections@.len(),
                forall|j: int| 0 <= j < i ==> pend_keys(self.pending_auth_connections@)[j] != id@,
            decreases self.pending_auth_connections@.len() - i,
        {
            if str_eq(self.pending_auth_connections[i].connection_id.as_str(), id) {
                return Some(i);
            }
            i += 1;
        }
        None
    }

    fn find_link(&self, id: &str) -> (r: Option<usize>)
        ensures
            match r {
                Some(i) => i < self.connection_to_user@.len() && link_keys(self.connection_to_user@)[i as int] == id@,
                None => !link_keys(self.connection_to_user@).contains(id@),
            },
    {
        let mut i: usize = 0;
        while i < self.connection_to_user.len()
            invariant
                i <= self.connection_to_user@.len(),
                forall|j: int| 0 <= j < i ==> link_keys(self.connection_to_user@)[j] != id@,
            decreases self.connection_to_user@.len() - i,
        {
            if str_eq(self.connection_to_user[i].connection_id.as_str(), id) {
                return Some(i);
            }
            i += 1;
        }
        None
    }

    fn find_user(&self, user_id: &str) -> (r: Option<usize>)
        ensures
            match r {
                Some(j) => j < self.users@.len() && user_keys(self.users@)[j as int] == user_id@,
                None => !user_keys(self.users@).contains(user_id@),
            },
    {
        let mut j: usize = 0;
        while j < self.users.len()
            invariant
                j <= self.users@.len(),
                forall|k: int| 0 <= k < j ==> user_keys(self.users@)[k] != user_id@,
            decreases self.users@.len() - j,
        {
            if str_eq(self.users[j].user_id.as_str(), user_id) {
                return Some(j);
            }
            j += 1;
        }
        None
    }

    /// Registers `connection_id` at `now` as waiting for credentials (an
    /// earlier entry for it is replaced) and counts it.
    pub fn add_pending_connection_at(&mut self, connection_id: String, now: u64) -> (r: Result<(), FlareError>)
        requires
            old(self).wf(),
            old(self).spec_stats().pending_auth_connections < usize::MAX,
        ensures
            final(self).wf(),
            r is Ok,
            final(self).pending() == old(self).pending().insert(connection_id@, fresh_pending_auth(now)),
            final(self).spec_stats() == (UserConnectionStats {
                pending_auth_connections: (old(self).spec_stats().pending_auth_connections + 1) as usize,
                ..old(self).spec_stats()
            }),
            final(self).base() == old(self).base(),
            final(self).users() == old(self).users(),
            final(self).links() == old(self).links(),
            final(self).spec_auth_timeout() == old(self).spec_auth_timeout(),
    {
        let ghost ks = pend_keys(self.pending_auth_connections@);
        let ghost vs = pend_vals(self.pending_auth_connections@);
        let ghost cv = connection_id@;
        let info = PendingAuthInfo { connected_at: now, last_activity: now, platform: None, device_id: None };
        let ghost iv = info@;
        match self.find_pending(connection_id.as_str()) {
            Some(i) => {
                self.pending_auth_connections.set(i, PendingRow { connection_id, info });
                proof {
                    assert(pend_keys(self.pending_auth_connections@) =~= ks);
                    assert(pend_vals(self.pending_auth_connections@) =~= vs.update(i as int, iv));
                    lemma_kv_update(ks, vs, i as int, iv);
                }
            },
            None => {
                self.pending_auth_connections.push(PendingRow { connection_id, info });
                proof {
                    assert(pend_keys(self.pending_auth_connections@) =~= ks.push(cv));
                    assert(pend_vals(self.pending_auth_connections@) =~= vs.push(iv));
                    lemma_kv_push(ks, vs, cv, iv);
                }
            },
        }
        self.stats.pending_auth_connections = self.stats.pending_auth_connections + 1;
        Ok(())
    }

    /// [`UserConnectionManager::add_pending_connection_at`] at the current
    /// time.
    pub fn add_pending_connection(&mut self, connection_id: String) -> (r: Result<(), FlareError>)
        requires
            old(self).wf(),
            old(self).spec_stats().pending_auth_connections < usize::MAX,
        ensures
            final(self).wf(),
            r is Ok,
            exists|now: u64|
                final(self).pending() == old(self).pending().insert(connection_id@, #[trigger] fresh_pending_auth(now)),
            final(self).spec_stats() == (UserConnectionStats {
                pending_auth_connections: (old(self).spec_stats().pending_auth_connections + 1) as usize,
                ..old(self).spec_stats()
            }),
            final(self).base() == old(self).base(),
            final(self).users() == old(self).users(),
            final(self).links() == old(self).links(),
            final(self).spec_auth_timeout() == old(self).spec_auth_timeout(),
    {
        let now = current_timestamp_ms();
        let ghost cv = connection_id@;
        let r = self.add_pending_connection_at(connection_id, now);
        assert(self.pending() == old(self).pending().insert(cv, fresh_pending_auth(now)));
        r
    }

    /// Drops the pending entry of `id`, handing it back.
    fn take_pending(&mut self, id: &str) -> (r: Option<PendingAuthInfo>)
        requires
            old(self).wf(),
        ensures
            final(self).wf(),
            final(self).pending() == old(self).pending().remove(id@),
            match r {
                Some(info) => old(self).pending().contains_key(id@) && info@ == old(self).pending()[id@],
                None => !old(self).pending().contains_key(id@),
            },
            final(self).connection_manager == old(self).connection_manager,
            final(self).users == old(self).users,
            final(self).connection_to_user == old(self).connection_to_user,
            final(self).stats == old(self).stats,
            final(self).auth_timeout == old(self).auth_timeout,
    {
        let ghost ks = pend_keys(self.pending_auth_connections@);
        let ghost vs = pend_vals(self.pending_auth_connections@);
        match self.find_pending(id) {
            None => {
                proof {
                    lemma_kv_absent(ks, vs, id@);
                    assert(kv_map(ks, vs).remove(id@) =~= kv_map(ks, vs));
                }
                None
            },
            Some(i) => {
                proof {
                    lemma_kv_at(ks, vs, i as int);
                    lemma_kv_remove(ks, vs, i as int);
                }
                let row = self.pending_auth_connections.remove(i);
                proof {
                    assert(pend_keys(self.pending_auth_connections@) =~= ks.remove(i as int));
                    assert(pend_vals(self.pending_auth_connections@) =~= vs.remove(i as int));
                }
                Some(row.info)
            },
        }
    }

    /// Binds `id` to `user_id` on `platform` (replacing an earlier binding).
    fn set_link(&mut self, id: String, user_id: String, platform: DevicePlatform)
        requires
            old(self).wf(),
        ensures
            final(self).wf(),
            final(self).links() == old(self).links().insert(id@, (user_id@, platform@)),
            final(self).connection_manager == old(self).connection_manager,
            final(self).users == old(self).users,
            final(self).pending_auth_connections == old(self).pending_auth_connections,
            final(self).stats == old(self).stats,
            final(self).auth_timeout == old(self).auth_timeout,
    {
        let ghost ks = link_keys(self.connection_to_user@);
        let ghost vs = link_vals(self.connection_to_user@);
        let ghost kv = id@;
        let ghost vv = (user_id@, platform@);
        match self.find_link(id.as_str()) {
            Some(i) => {
                self.connection_to_user.set(i, LinkRow { connection_id: id, user_id, platform });
                proof {
                    assert(link_keys(self.connection_to_user@) =~= ks);
                    assert(link_vals(self.connection_to_user@) =~= vs.update(i as int, vv));
                    lemma_kv_update(ks, vs, i as int, vv);
                }
            },
            None => {
                self.connection_to_user.push(LinkRow { connection_id: id, user_id, platform });
                proof {
                    assert(link_keys(self.connection_to_user@) =~= ks.push(kv));
                    assert(link_vals(self.connection_to_user@) =~= vs.push(vv));
                    lemma_kv_push(ks, vs, kv, vv);
                }
            },
        }
    }

    /// Records `info` as its user's connection on its platform; tells
    /// whether the user already had one there.
    fn record_user(&mut self, info: UserConnectionInfo) -> (known: bool)
        requires
            old(self).wf(),
            old(self).stats.active_users < usize::MAX,
        ensures
            known == has_platform(old(self).users(), info.user_id@, info.platform@),
            final(self).users() == users_record(old(self).users(), info.user_id@, info.platform@, info@),
            final(self).users@.len() <= old(self).users@.len() + 1,
            old(self).users().contains_key(info.user_id@) ==> final(self).users@.len() == old(self).users@.len(),
            kv_wf(user_keys(final(self).users@), user_maps(final(self).users@)),
            forall|j: int| 0 <= j < final(self).users@.len() ==> #[trigger] row_wf(final(self).users@[j].platforms@),
            final(self).connection_manager == old(self).connection_manager,
            final(self).connection_to_user == old(self).connection_to_user,
            final(self).pending_auth_connections == old(self).pending_auth_connections,
            final(self).stats == old(self).stats,
            final(self).auth_timeout == old(self).auth_timeout,
    {
        let ghost ks = user_keys(self.users@);
        let ghost vs = user_maps(self.users@);
        let ghost old_users = self.users@;
        let ghost uv = info.user_id@;
        let ghost pv = info.platform@;
        let ghost iv = info@;
        proof {
            lemma_kv_len(ks, vs);
        }
        match self.find_user(info.user_id.as_str()) {
            Some(j) => {
                proof {
                    lemma_kv_at(ks, vs, j as int);
                    assert(row_wf(old_users[j as int].platforms@));
                }
                let mut row = self.users.remove(j);
                let ghost pk = row_keys(row.platforms@);
                let ghost pc = row_vals(row.platforms@);
                let found = find_row_platform(&row.platforms, &info.platform);
                let known = found.is_some();
                match found {
                    Some(q) => {
                        proof {
                            lemma_kv_at(pk, pc, q as int);
                        }
                        row.platforms.set(q, info);
                        proof {
                            assert(row_keys(row.platforms@) =~= pk);
                            assert(row_vals(row.platforms@) =~= pc.update(q as int, iv));
                            lemma_kv_update(pk, pc, q as int, iv);
                        }
                    },
                    None => {
                        proof {
                            lemma_kv_absent(pk, pc, pv);
                        }
                        row.platforms.push(info);
                        proof {
                            assert(row_keys(row.platforms@) =~= pk.push(pv));
                            assert(row_vals(row.platforms@) =~= pc.push(iv));
                            lemma_kv_push(pk, pc, pv, iv);
                        }
                    },
                }
                let ghost nm = row_map(row.platforms@);
                self.users.insert(j, row);
                proof {
                    assert(user_keys(self.users@) =~= ks);
                    assert(user_maps(self.users@) =~= vs.update(j as int, nm));
                    lemma_kv_update(ks, vs, j as int, nm);
                    assert forall|k: int| 0 <= k < self.users@.len() implies #[trigger] row_wf(self.users@[k].platforms@) by {
                        if k != j {
                            assert(self.users@[k] == old_users[k]);
                        }
                    }
                }
                known
            },
            None => {
                proof {
                    lemma_kv_absent(ks, vs, uv);
                }
                let user_id = info.user_id.clone();
                let mut platforms: Vec<UserConnectionInfo> = Vec::new();
                platforms.push(info);
                let ghost nm = row_map(platforms@);
                proof {
                    assert(row_keys(platforms@) =~= Seq::<PlatformView>::empty().push(pv));
                    assert(row_vals(platforms@) =~= Seq::<UserConnectionInfoView>::empty().push(iv));
                    lemma_kv_push(Seq::<PlatformView>::empty(), Seq::<UserConnectionInfoView>::empty(), pv, iv);
                    assert(kv_map(Seq::<PlatformView>::empty(), Seq::<UserConnectionInfoView>::empty()) =~= Map::empty());
                }
                self.users.push(UserRow { user_id, platforms });
                proof {
                    assert(user_keys(self.users@) =~= ks.push(uv));
                    assert(user_maps(self.users@) =~= vs.push(nm));
                    lemma_kv_push(ks, vs, uv, nm);
                    assert forall|k: int| 0 <= k < self.users@.len() implies #[trigger] row_wf(self.users@[k].platforms@) by {
                        if k < old_users.len() {
                            assert(self.users@[k] == old_users[k]);
                        }
                    }
                }
                false
            },
        }
    }

    /// Completes the authentication of `connection_id` at `now`: it stops
    /// waiting for credentials (the waiting count drops by one either way),
    /// and, if the underlying manager knows it, it is bound to `user_id`
    /// there and recorded as the user's connection on `platform`. An
    /// unknown connection is refused with [`ErrorCode::ConnectionFailed`].
    pub fn complete_authentication_at(
        &mut self,
        connection_id: String,
        user_id: String,
        platform: DevicePlatform,
        device_id: Option<String>,
        now: u64,
    ) -> (r: Result<(), FlareError>)
        requires
            old(self).wf(),
            old(self).spec_stats().pending_auth_connections > 0,
            old(self).spec_stats().active_users < usize::MAX,
            old(self).spec_stats().total_connections < usize::MAX,
            old(self).spec_stats().active_connections < usize::MAX,
            old(self).spec_stats().total_users < usize::MAX,
        ensures
            final(self).wf(),
            final(self).pending() == old(self).pending().remove(connection_id@),
            r is Err <==> !old(self).base().conns().contains_key(connection_id@),
            r is Err ==> {
                &&& r->Err_0.code == ErrorCode::ConnectionFailed
                &&& r->Err_0.message@ == missing_connection_message(connection_id@)
                &&& final(self).base() == old(self).base()
                &&& final(self).users() == old(self).users()
                &&& final(self).links() == old(self).links()
                &&& final(self).spec_stats() == (UserConnectionStats {
                    pending_auth_connections: (old(self).spec_stats().pending_auth_connections - 1) as usize,
                    ..old(self).spec_stats()
                })
            },
            r is Ok ==> {
                &&& final(self).base().wf()
                &&& final(self).base().conns() == old(self).base().conns().insert(
                    connection_id@,
                    crate::connection::ConnectionInfoView {
                        user_id: Some(user_id@),
                        ..old(self).base().conns()[connection_id@]
                    },
                )
                &&& final(self).base().handles() == old(self).base().handles()
                &&& final(self).users() == users_record(
                    old(self).users(),
                    user_id@,
                    platform@,
                    authenticated_info(user_id@, platform@, opt_view(device_id), now),
                )
                &&& final(self).links() == old(self).links().insert(connection_id@, (user_id@, platform@))
                &&& final(self).spec_stats() == (UserConnectionStats {
                    pending_auth_connections: (old(self).spec_stats().pending_auth_connections - 1) as usize,
                    active_users: if has_platform(old(self).users(), user_id@, platform@) {
                        old(self).spec_stats().active_users
                    } else {
                        (old(self).spec_stats().active_users + 1) as usize
                    },
                    total_connections: (old(self).spec_stats().total_connections + 1) as usize,
                    active_connections: (old(self).spec_stats().active_connections + 1) as usize,
                    total_users: (old(self).spec_stats().total_users + 1) as usize,
                    ..old(self).spec_stats()
                })
            },
            final(self).spec_auth_timeout() == old(self).spec_auth_timeout(),
    {
        proof {
            reveal_strlit("连接不存在: ");
            reveal_strlit("");
        }
        let _ = self.take_pending(connection_id.as_str());
        self.stats.pending_auth_connections = self.stats.pending_auth_connections - 1;
        match self.connection_manager.get_connection(connection_id.as_str()) {
            None => {
                return Err(FlareError::connection_failed(concat3("连接不存在: ", connection_id.as_str(), "")));
            },
            Some(_) => {},
        }
        let _ = self.connection_manager.bind_user(connection_id.as_str(), user_id.clone());
        let info = UserConnectionInfo {
            user_id: user_id.clone(),
            platform: platform.copy_platform(),
            device_id,
            connected_at: now,
            last_activity: now,
            is_authenticated: true,
        };
        let known = self.record_user(info);
        if !known {
            self.stats.active_users = self.stats.active_users + 1;
        }
        self.set_link(connection_id, user_id, platform);
        self.stats.total_connections = self.stats.total_connections + 1;
        self.stats.active_connections = self.stats.active_connections + 1;
        self.stats.total_users = self.stats.total_users + 1;
        Ok(())
    }

    /// Drops the binding of `id`, handing back its user and platform.
    fn take_link(&mut self, id: &str) -> (r: Option<(String, DevicePlatform)>)
        requires
            old(self).wf(),
        ensures
            final(self).wf(),
            final(self).links() == old(self).links().remove(id@),
            match r {
                Some((u, p)) => old(self).links().contains_key(id@) && old(self).links()[id@] == (u@, p@),
                None => !old(self).links().contains_key(id@),
            },
            final(self).connection_manager == old(self).connection_manager,
            final(self).users == old(self).users,
            final(self).pending_auth_connections == old(self).pending_auth_connections,
            final(self).stats == old(self).stats,
            final(self).auth_timeout == old(self).auth_timeout,
    {
        let ghost ks = link_keys(self.connection_to_user@);
        let ghost vs = link_vals(self.connection_to_user@);
        match self.find_link(id) {
            None => {
                proof {
                    lemma_kv_absent(ks, vs, id@);
                    assert(kv_map(ks, vs).remove(id@) =~= kv_map(ks, vs));
                }
                None
            },
            Some(i) => {
                proof {
                    lemma_kv_at(ks, vs, i as int);
                    lemma_kv_remove(ks, vs, i as int);
                }
                let row = self.connection_to_user.remove(i);
                proof {
                    assert(link_keys(self.connection_to_user@) =~= ks.remove(i as int));
                    assert(link_vals(self.connection_to_user@) =~= vs.remove(i as int));
                }
                Some((row.user_id, row.platform))
            },
        }
    }

    /// Forgets user `u`'s connection on platform `p`, dropping the user
    /// when no platform is left; tells whether the user was dropped.
    fn forget_user_platform(&mut self, u: &str, p: &DevicePlatform) -> (dropped: bool)
        requires
            old(self).wf(),
        ensures
            dropped == forget_drops_user(old(self).users(), u@, p@),
            final(self).users() == users_forget(old(self).users(), u@, p@),
            dropped ==> final(self).users@.len() + 1 == old(self).users@.len(),
            !dropped ==> final(self).users@.len() == old(self).users@.len(),
            kv_wf(user_keys(final(self).users@), user_maps(final(self).users@)),
            forall|j: int| 0 <= j < final(self).users@.len() ==> #[trigger] row_wf(final(self).users@[j].platforms@),
            final(self).connection_manager == old(self).connection_manager,
            final(self).connection_to_user == old(self).connection_to_user,
            final(self).pending_auth_connections == old(self).pending_auth_connections,
            final(self).stats == old(self).stats,
            final(self).auth_timeout == old(self).auth_timeout,
    {
        let ghost ks = user_keys(self.users@);
        let ghost vs = user_maps(self.users@);
        let ghost old_users = self.users@;
        match self.find_user(u) {
            None => {
                proof {
                    lemma_kv_absent(ks, vs, u@);
                }
                false
            },
            Some(j) => {
                proof {
                    lemma_kv_at(ks, vs, j as int);
                    assert(row_wf(old_users[j as int].platforms@));
                }
                let mut row = self.users.remove(j);
                let ghost pk = row_keys(row.platforms@);
                let ghost pc = row_vals(row.platforms@);
                let ghost m0 = row_map(row.platforms@);
                proof {
                    assert(user_keys(self.users@) =~= ks.remove(j as int));
                    assert(user_maps(self.users@) =~= vs.remove(j as int));
                    lemma_kv_remove(ks, vs, j as int);
                }
                match find_row_platform(&row.platforms, p) {
                    Some(q) => {
                        proof {
                            lemma_kv_at(pk, pc, q as int);
                            lemma_kv_remove(pk, pc, q as int);
                        }
                        let _ = row.platforms.remove(q);
                        proof {
                            assert(row_keys(row.platforms@) =~= pk.remove(q as int));
                            assert(row_vals(row.platforms@) =~= pc.remove(q as int));
                        }
                    },
                    None => {
                        proof {
                            lemma_kv_absent(pk, pc, p@);
                            assert(m0.remove(p@) =~= m0);
                        }
                    },
                }
                let ghost m1 = row_map(row.platforms@);
                assert(m1 == m0.remove(p@));
                proof {
                    lemma_kv_len(row_keys(row.platforms@), row_vals(row.platforms@));
                }
                if row.platforms.len() == 0 {
                    proof {
                        assert(m1 =~= Map::empty());
                        assert(kv_map(ks, vs).remove(u@) == kv_map(user_keys(self.users@), user_maps(self.users@)));
                        assert forall|k: int| 0 <= k < self.users@.len() implies #[trigger] row_wf(self.users@[k].platforms@) by {
                            if k < j {
                                assert(self.users@[k] == old_users[k]);
                            } else {
                                assert(self.users@[k] == old_users[k + 1]);
                            }
                        }
                    }
                    true
                } else {
                    proof {
                        assert(!m1.is_empty()) by {
                            assert(m1.contains_key(row_keys(row.platforms@)[0]));
                        }
                    }
                    self.users.insert(j, row);
                    proof {
                        assert(user_keys(self.users@) =~= ks);
                        assert(user_maps(self.users@) =~= vs.update(j as int, m1));
                        lemma_kv_update(ks, vs, j as int, m1);
                        assert forall|k: int| 0 <= k < self.users@.len() implies #[trigger] row_wf(self.users@[k].platforms@) by {
                            if k != j {
                                assert(self.users@[k] == old_users[k]);
                            }
                        }
                    }
                    false
                }
            },
        }
    }

    /// Removes `connection_id` from the underlying manager (an unknown id is
    /// refused there, and nothing changes); its binding goes, and its
    /// user's connection on that platform with it (a user left with no
    /// platform is dropped and no longer counted active). The active
    /// connection count drops by one, not below zero.
    pub fn remove_connection(&mut self, connection_id: &str) -> (r: Result<(), FlareError>)
        requires
            old(self).wf(),
        ensures
            final(self).wf(),
            r is Err <==> !old(self).base().conns().contains_key(connection_id@),
            r is Err ==> r->Err_0.code == ErrorCode::ProtocolError && *final(self) == *old(self),
            r is Ok ==> {
                &&& final(self).base().conns() == old(self).base().conns().remove(connection_id@)
                &&& final(self).base().handles() == old(self).base().handles().remove(connection_id@)
                &&& final(self).links() == old(self).links().remove(connection_id@)
                &&& final(self).users() == unlink_users(old(self).users(), old(self).links(), connection_id@)
                &&& final(self).spec_stats() == unlink_stats(
                    old(self).spec_stats(),
                    old(self).users(),
                    old(self).links(),
                    connection_id@,
                )
                &&& final(self).pending() == old(self).pending()
            },
            final(self).spec_auth_timeout() == old(self).spec_auth_timeout(),
    {
        match self.connection_manager.remove_connection(connection_id) {
            Err(e) => {
                return Err(e);
            },
            Ok(()) => {},
        }
        match self.take_link(connection_id) {
            Some((u, p)) => {
                let dropped = self.forget_user_platform(u.as_str(), &p);
                if dropped {
                    self.stats.active_users = self.stats.active_users - 1;
                }
            },
            None => {},
        }
        if self.stats.active_connections > 0 {
            self.stats.active_connections = self.stats.active_connections - 1;
        }
        Ok(())
    }

    /// Disconnects a connection that failed its authentication: it must be
    /// waiting for credentials (else [`ErrorCode::ConnectionFailed`]); it is
    /// removed from the underlying manager (an error there is handed back
    /// and nothing changes) and stops waiting, and the waiting count drops
    /// by one.
    pub fn disconnect_unauthenticated_connection(&mut self, connection_id: &str) -> (r: Result<(), FlareError>)
        requires
            old(self).wf(),
            old(self).pending().contains_key(connection_id@) && old(self).base().conns().contains_key(connection_id@)
                ==> old(self).spec_stats().pending_auth_connections > 0,
        ensures
            final(self).wf(),
            !old(self).pending().contains_key(connection_id@) ==> {
                &&& r is Err
                &&& r->Err_0.code == ErrorCode::ConnectionFailed
                &&& r->Err_0.message@ == not_pending_message(connection_id@)
                &&& *final(self) == *old(self)
            },
            old(self).pending().contains_key(connection_id@) && !old(self).base().conns().contains_key(connection_id@)
                ==> r is Err && r->Err_0.code == ErrorCode::ProtocolError && *final(self) == *old(self),
            old(self).pending().contains_key(connection_id@) && old(self).base().conns().contains_key(connection_id@)
                ==> {
                &&& r is Ok
                &&& final(self).base().conns() == old(self).base().conns().remove(connection_id@)
                &&& final(self).base().handles() == old(self).base().handles().remove(connection_id@)
                &&& final(self).pending() == old(self).pending().remove(connection_id@)
                &&& final(self).spec_stats() == (UserConnectionStats {
                    pending_auth_connections: (old(self).spec_stats().pending_auth_connections - 1) as usize,
                    ..old(self).spec_stats()
                })
                &&& final(self).users() == old(self).users()
                &&& final(self).links() == old(self).links()
            },
            final(self).spec_auth_timeout() == old(self).spec_auth_timeout(),
    {
        proof {
            reveal_strlit("连接不在待验证列表中: ");
            reveal_strlit("");
        }
        let ghost ks = pend_keys(self.pending_auth_connections@);
        let ghost vs = pend_vals(self.pending_auth_connections@);
        match self.find_pending(connection_id) {
            None => {
                proof {
                    lemma_kv_absent(ks, vs, connection_id@);
                }
                return Err(
                    FlareError::connection_failed(
                        concat3("连接不在待验证列表中: ", connection_id, ""),
                    ),
                );
            },
            Some(i) => {
                proof {
                    lemma_kv_at(ks, vs, i as int);
                }
            },
        }
        match self.connection_manager.remove_connection(connection_id) {
            Err(e) => {
                return Err(e);
            },
            Ok(()) => {},
        }
        let _ = self.take_pending(connection_id);
        self.stats.pending_auth_connections = self.stats.pending_auth_connections - 1;
        Ok(())
    }

    /// The connections bound to `user_id` that the underlying manager still
    /// knows, each once.
    pub fn get_user_connections(&self, user_id: &str) -> (r: Vec<String>)
        requires
            self.wf(),
        ensures
            crate::manager::ids_view(r@).no_duplicates(),
            crate::manager::ids_view(r@).to_set() == live_user_connections(
                self.links(),
                user_id@,
                self.base().conns().dom(),
            ),
    {
        let ghost ks = link_keys(self.connection_to_user@);
        let ghost vs = link_vals(self.connection_to_user@);
        let ghost target = live_user_connections(self.links(), user_id@, self.base().conns().dom());
        let mut r: Vec<String> = Vec::new();
        let mut i: usize = 0;
        while i < self.connection_to_user.len()
            invariant
                self.wf(),
                ks == link_keys(self.connection_to_user@),
                vs == link_vals(self.connection_to_user@),
                target == live_user_connections(self.links(), user_id@, self.base().conns().dom()),
                i <= ks.len(),
                crate::manager::ids_view(r@).no_duplicates(),
                forall|k: Seq<char>|
                    #[trigger] crate::manager::ids_view(r@).contains(k) <==> (ks.take(i as int).contains(k)
                        && target.contains(k)),
            decreases ks.len() - i,
        {
            proof {
                lemma_kv_at(ks, vs, i as int);
            }
            let ghost c = ks[i as int];
            let ghost pre = ks.take(i as int);
            let ghost nt = ks.take(i + 1);
            proof {
                lemma_take_next(ks, i as int);
            }
            let row = &self.connection_to_user[i];
            if str_eq(row.user_id.as_str(), user_id) {
                match self.connection_manager.get_connection(row.connection_id.as_str()) {
                    Some(_) => {
                        let s = row.connection_id.clone();
                        let ghost before = r@;
                        proof {
                            crate::manager::lemma_ids_push(before, s);
                        }
                        r.push(s);
                        proof {
                            assert(crate::manager::ids_view(r@) == crate::manager::ids_view(before).push(c));
                            assert(!crate::manager::ids_view(before).contains(c));
                            assert forall|x: Seq<char>|
                                #[trigger] crate::manager::ids_view(r@).contains(x) <==> (nt.contains(x) && target.contains(x)) by {
                                if crate::manager::ids_view(r@).contains(x) && x != c {
                                    let q = choose|q: int| 0 <= q < crate::manager::ids_view(r@).len() && crate::manager::ids_view(r@)[q] == x;
                                    assert(crate::manager::ids_view(before)[q] == x);
                                }
                                if x == c {
                                    assert(crate::manager::ids_view(r@)[before.len() as int] == c);
                                }
                                if crate::manager::ids_view(before).contains(x) {
                                    let q = choose|q: int| 0 <= q < crate::manager::ids_view(before).len() && crate::manager::ids_view(before)[q] == x;
                                    assert(crate::manager::ids_view(r@)[q] == x);
                                }
                            }
                        }
                    },
                    None => {},
                }
            }
            i += 1;
        }
        proof {
            assert(ks.take(ks.len() as int) =~= ks);
            assert(crate::manager::ids_view(r@).to_set() =~= target);
        }
        r
    }

    /// Empties the manager: every connection of the underlying manager is
    /// removed, nobody is known or waiting, and the active and waiting
    /// counts are zero.
    pub fn clear_all(&mut self)
        requires
            old(self).wf(),
        ensures
            final(self).wf(),
            final(self).base().conns().is_empty(),
            final(self).base().handles().is_empty(),
            final(self).users().is_empty(),
            final(self).links().is_empty(),
            final(self).pending().is_empty(),
            final(self).spec_stats() == (UserConnectionStats {
                active_users: 0,
                active_connections: 0,
                pending_auth_connections: 0,
                ..old(self).spec_stats()
            }),
            final(self).spec_auth_timeout() == old(self).spec_auth_timeout(),
    {
        let ids = self.connection_manager.list_connections();
        proof {
            self.connection_manager.lemma_ids();
        }
        let ghost all = crate::manager::ids_view(ids@);
        let ghost c0 = self.connection_manager.conns();
        let mut i: usize = 0;
        while i < ids.len()
            invariant
                self.connection_manager.wf(),
                all == crate::manager::ids_view(ids@),
                all.no_duplicates(),
                c0.dom() == all.to_set(),
                i <= ids@.len(),
                forall|k: Seq<char>|
                    #[trigger] self.connection_manager.conns().contains_key(k) <==> (c0.contains_key(k)
                        && !all.take(i as int).contains(k)),
                self.connection_manager.handles().dom() == self.connection_manager.conns().dom(),
                self.stats == old(self).stats,
                self.auth_timeout == old(self).auth_timeout,
            decreases ids@.len() - i,
        {
            let ghost c = all[i as int];
            let ghost pre = all.take(i as int);
            let ghost nt = all.take(i + 1);
            proof {
                lemma_take_next(all, i as int);
                assert(all.to_set().contains(c));
                assert(crate::manager::ids_view(ids@)[i as int] == ids@[i as int]@);
            }
            let _ = self.connection_manager.remove_connection(ids[i].as_str());
            proof {
                self.connection_manager.lemma_ids();
            }
            i += 1;
        }
        proof {
            assert(all.take(ids@.len() as int) =~= all);
            assert(self.connection_manager.conns() =~= Map::empty());
            assert(self.connection_manager.handles() =~= Map::empty());
        }
        self.users = Vec::new();
        self.connection_to_user = Vec::new();
        self.pending_auth_connections = Vec::new();
        self.stats.active_users = 0;
        self.stats.active_connections = 0;
        self.stats.pending_auth_connections = 0;
        proof {
            assert(self.users() =~= Map::empty());
            assert(self.links() =~= Map::empty());
            assert(self.pending() =~= Map::empty());
        }
    }

    /// Drops the connections that waited longer than the timeout for
    /// credentials at `now`: each is removed from the underlying manager
    /// and, if that succeeded, stops waiting and is no longer counted.
    /// Returns how many were dropped.
    pub fn cleanup_timeout_pending_connections_at(&mut self, now: u64) -> (removed: usize)
        requires
            old(self).wf(),
            old(self).spec_stats().pending_auth_connections >= expired_pending(
                old(self).pending(),
                old(self).base().conns().dom(),
                old(self).spec_auth_timeout(),
                now,
            ).len(),
        ensures
            final(self).wf(),
            ({
                let gone = expired_pending(
                    old(self).pending(),
                    old(self).base().conns().dom(),
                    old(self).spec_auth_timeout(),
                    now,
                );
                &&& removed == gone.len()
                &&& final(self).pending() == old(self).pending().remove_keys(gone)
                &&& final(self).base().conns() == old(self).base().conns().remove_keys(gone)
                &&& final(self).base().handles() == old(self).base().handles().remove_keys(gone)
                &&& final(self).spec_stats() == (UserConnectionStats {
                    pending_auth_connections: (old(self).spec_stats().pending_auth_connections - gone.len()) as usize,
                    ..old(self).spec_stats()
                })
            }),
            final(self).users() == old(self).users(),
            final(self).links() == old(self).links(),
            final(self).spec_auth_timeout() == old(self).spec_auth_timeout(),
    {
        let ghost p0 = self.pending();
        let ghost c0 = self.connection_manager.conns();
        let ghost h0 = self.connection_manager.handles();
        let ghost gone = expired_pending(p0, c0.dom(), self.auth_timeout, now);
        let ghost ks = pend_keys(self.pending_auth_connections@);
        let ghost vs = pend_vals(self.pending_auth_connections@);
        let mut snapshot: Vec<(String, u64)> = Vec::new();
        let mut i: usize = 0;
        while i < self.pending_auth_connections.len()
            invariant
                i <= self.pending_auth_connections@.len(),
                ks == pend_keys(self.pending_auth_connections@),
                vs == pend_vals(self.pending_auth_connections@),
                snapshot@.len() == i,
                forall|j: int|
                    0 <= j < i ==> #[trigger] snapshot@[j].0@ == ks[j] && snapshot@[j].1 == vs[j].connected_at,
            decreases self.pending_auth_connections@.len() - i,
        {
            let row = &self.pending_auth_connections[i];
            snapshot.push((row.connection_id.clone(), row.info.connected_at));
            i += 1;
        }
        proof {
            lemma_kv_len(ks, vs);
            self.connection_manager.lemma_ids();
            assert(gone.subset_of(p0.dom()));
            vstd::set_lib::lemma_len_subset(gone, p0.dom());
        }
        let ghost mut done: Set<Seq<char>> = Set::empty();
        let mut removed: usize = 0;
        let mut j: usize = 0;
        while j < snapshot.len()
            invariant
                self.wf(),
                j <= snapshot@.len(),
                snapshot@.len() == ks.len(),
                kv_wf(ks, vs),
                p0 == kv_map(ks, vs),
                forall|q: int| 0 <= q < ks.len() ==> #[trigger] snapshot@[q].0@ == ks[q] && snapshot@[q].1 == vs[q].connected_at,
                gone == expired_pending(p0, c0.dom(), self.auth_timeout, now),
                gone.finite(),
                done.finite(),
                done.subset_of(gone),
                forall|k: Seq<char>| #[trigger] done.contains(k) <==> (ks.take(j as int).contains(k) && gone.contains(k)),
                removed == done.len(),
                self.pending() == p0.remove_keys(done),
                self.connection_manager.conns() == c0.remove_keys(done),
                self.connection_manager.handles() == h0.remove_keys(done),
                h0.dom() == c0.dom(),
                self.stats == (UserConnectionStats {
                    pending_auth_connections: (old(self).stats.pending_auth_connections - done.len()) as usize,
                    ..old(self).stats
                }),
                old(self).stats.pending_auth_connections >= gone.len(),
                self.users == old(self).users,
                self.connection_to_user == old(self).connection_to_user,
                self.auth_timeout == old(self).auth_timeout,
            decreases snapshot@.len() - j,
        {
            let ghost c = ks[j as int];
            let ghost pre = ks.take(j as int);
            proof {
                lemma_kv_at(ks, vs, j as int);
                lemma_take_next(ks, j as int);
                assert(!done.contains(c));
                assert(snapshot@[j as int].0@ == c);
                assert(p0.contains_key(c) && p0[c] == vs[j as int]);
            }
            let expired = now > snapshot[j].1 && now - snapshot[j].1 > self.auth_timeout;
            if expired {
                let ok = self.connection_manager.remove_connection(snapshot[j].0.as_str());
                if ok.is_ok() {
                    proof {
                        assert(gone.contains(c));
                        assert(done.insert(c).subset_of(gone));
                        vstd::set_lib::lemma_len_subset(done.insert(c), gone);
                    }
                    let _ = self.take_pending(snapshot[j].0.as_str());
                    self.stats.pending_auth_connections = self.stats.pending_auth_connections - 1;
                    removed = removed + 1;
                    proof {
                        done = done.insert(c);
                        assert(self.pending() =~= p0.remove_keys(done));
                        assert(self.connection_manager.conns() =~= c0.remove_keys(done));
                        assert(self.connection_manager.handles() =~= h0.remove_keys(done));
                    }
                } else {
                    proof {
                        assert(!c0.remove_keys(done).contains_key(c));
                        assert(!c0.contains_key(c));
                        assert(!gone.contains(c));
                    }
                }
            } else {
                proof {
                    assert(!gone.contains(c));
                }
            }
            j += 1;
        }
        proof {
            assert(ks.take(ks.len() as int) =~= ks);
            assert(done =~= gone);
        }
        removed
    }

    /// [`UserConnectionManager::cleanup_timeout_pending_connections_at`] at
    /// the current time.
    pub fn cleanup_timeout_pending_connections(&mut self) -> (removed: usize)
        requires
            old(self).wf(),
            old(self).spec_stats().pending_auth_connections >= old(self).pending().len(),
        ensures
            final(self).wf(),
            exists|now: u64|
                {
                    let gone = #[trigger] expired_pending(
                        old(self).pending(),
                        old(self).base().conns().dom(),
                        old(self).spec_auth_timeout(),
                        now,
                    );
                    &&& removed == gone.len()
                    &&& final(self).pending() == old(self).pending().remove_keys(gone)
                    &&& final(self).base().conns() == old(self).base().conns().remove_keys(gone)
                },
            final(self).users() == old(self).users(),
            final(self).links() == old(self).links(),
            final(self).spec_auth_timeout() == old(self).spec_auth_timeout(),
    {
        let now = current_timestamp_ms();
        let ghost gone = expired_pending(old(self).pending(), old(self).base().conns().dom(), old(self).spec_auth_timeout(), now);
        proof {
            lemma_kv_len(pend_keys(self.pending_auth_connections@), pend_vals(self.pending_auth_connections@));
            assert(gone.subset_of(old(self).pending().dom()));
            vstd::set_lib::lemma_len_subset(gone, old(self).pending().dom());
        }
        self.cleanup_timeout_pending_connections_at(now)
    }

    /// Removes every connection bound to `user_id` (see
    /// [`UserConnectionManager::remove_connection`]); those the underlying
    /// manager no longer knows stay bound. Returns how many were removed.
    pub fn remove_user_connections(&mut self, user_id: &str) -> (r: Result<usize, FlareError>)
        requires
            old(self).wf(),
        ensures
            final(self).wf(),
            r is Ok,
            ({
                let gone = live_user_connections(old(self).links(), user_id@, old(self).base().conns().dom());
                let ps = platforms_of(old(self).links(), gone);
                &&& r->Ok_0 == gone.len()
                &&& final(self).base().conns() == old(self).base().conns().remove_keys(gone)
                &&& final(self).base().handles() == old(self).base().handles().remove_keys(gone)
                &&& final(self).links() == old(self).links().remove_keys(gone)
                &&& final(self).users() == if gone.is_empty() {
                    old(self).users()
                } else {
                    users_forget_all(old(self).users(), user_id@, ps)
                }
                &&& final(self).spec_stats() == (UserConnectionStats {
                    active_users: if !gone.is_empty() && forget_all_drops_user(old(self).users(), user_id@, ps) {
                        (old(self).spec_stats().active_users - 1) as usize
                    } else {
                        old(self).spec_stats().active_users
                    },
                    active_connections: sub_floor(old(self).spec_stats().active_connections, gone.len()),
                    ..old(self).spec_stats()
                })
            }),
            final(self).pending() == old(self).pending(),
            final(self).spec_auth_timeout() == old(self).spec_auth_timeout(),
    {
        let ghost l0 = self.links();
        let ghost c0 = self.connection_manager.conns();
        let ghost h0 = self.connection_manager.handles();
        let ghost t0 = self.users();
        let ghost u = user_id@;
        let ghost gone = live_user_connections(l0, u, c0.dom());
        let ghost ks = link_keys(self.connection_to_user@);
        let ghost vs = link_vals(self.connection_to_user@);
        let mut ids: Vec<String> = Vec::new();
        let mut i: usize = 0;
        while i < self.connection_to_user.len()
            invariant
                self.wf(),
                ks == link_keys(self.connection_to_user@),
                vs == link_vals(self.connection_to_user@),
                l0 == self.links(),
                u == user_id@,
                i <= ks.len(),
                crate::manager::ids_view(ids@).no_duplicates(),
                forall|k: Seq<char>|
                    #[trigger] crate::manager::ids_view(ids@).contains(k) <==> (ks.take(i as int).contains(k)
                        && l0.contains_key(k) && l0[k].0 == u),
            decreases ks.len() - i,
        {
            proof {
                lemma_kv_at(ks, vs, i as int);
            }
            let ghost c = ks[i as int];
            let ghost pre = ks.take(i as int);
            let ghost nt = ks.take(i + 1);
            proof {
                lemma_take_next(ks, i as int);
            }
            proof {
                assert(vs[i as int] == (self.connection_to_user@[i as int].user_id@, self.connection_to_user@[i as int].platform@));
                assert(l0.contains_key(c) && l0[c] == vs[i as int]);
            }
            let row = &self.connection_to_user[i];
            if str_eq(row.user_id.as_str(), user_id) {
                let s = row.connection_id.clone();
                let ghost before = ids@;
                proof {
                    crate::manager::lemma_ids_push(before, s);
                }
                proof {
                    assert(!crate::manager::ids_view(before).contains(c));
                }
                ids.push(s);
                proof {
                    assert(crate::manager::ids_view(ids@) == crate::manager::ids_view(before).push(c));
                    assert forall|x: Seq<char>|
                        #[trigger] crate::manager::ids_view(ids@).contains(x) <==> (nt.contains(x) && l0.contains_key(x)
                            && l0[x].0 == u) by {
                        if crate::manager::ids_view(ids@).contains(x) && x != c {
                            let q = choose|q: int| 0 <= q < crate::manager::ids_view(ids@).len() && crate::manager::ids_view(ids@)[q] == x;
                            assert(crate::manager::ids_view(before)[q] == x);
                        }
                        if x == c {
                            assert(crate::manager::ids_view(ids@)[before.len() as int] == c);
                        }
                        if crate::manager::ids_view(before).contains(x) {
                            let q = choose|q: int| 0 <= q < crate::manager::ids_view(before).len() && crate::manager::ids_view(before)[q] == x;
                            assert(crate::manager::ids_view(ids@)[q] == x);
                        }
                    }
                }
            } else {
                proof {
                    assert forall|x: Seq<char>|
                        #[trigger] crate::manager::ids_view(ids@).contains(x) <==> (nt.contains(x) && l0.contains_key(x)
                            && l0[x].0 == u) by {
                        if x == c {
                            assert(l0[x].0 != u);
                        }
                    }
                }
            }
            i += 1;
        }
        proof {
            assert(ks.take(ks.len() as int) =~= ks);
            self.connection_manager.lemma_ids();
        }
        let ghost all = crate::manager::ids_view(ids@);
        let ghost mut done: Set<Seq<char>> = Set::empty();
        let ghost mut dropped: bool = false;
        let mut count: usize = 0;
        let mut j: usize = 0;
        proof {
            assert(platforms_of(l0, done) =~= Set::empty());
        }
        while j < ids.len()
            invariant
                self.wf(),
                all == crate::manager::ids_view(ids@),
                all.no_duplicates(),
                forall|k: Seq<char>| #[trigger] all.contains(k) <==> (l0.contains_key(k) && l0[k].0 == u),
                gone == live_user_connections(l0, u, c0.dom()),
                u == user_id@,
                h0.dom() == c0.dom(),
                j <= ids@.len(),
                done.finite(),
                forall|k: Seq<char>| #[trigger] done.contains(k) <==> (all.take(j as int).contains(k) && c0.contains_key(k)),
                count == done.len(),
                count <= j,
                self.connection_manager.conns() == c0.remove_keys(done),
                self.connection_manager.handles() == h0.remove_keys(done),
                self.links() == l0.remove_keys(done),
                self.users() == if done.is_empty() { t0 } else { users_forget_all(t0, u, platforms_of(l0, done)) },
                dropped == (!done.is_empty() && forget_all_drops_user(t0, u, platforms_of(l0, done))),
                self.stats == (UserConnectionStats {
                    active_users: if dropped {
                        (old(self).stats.active_users - 1) as usize
                    } else {
                        old(self).stats.active_users
                    },
                    active_connections: sub_floor(old(self).stats.active_connections, done.len()),
                    ..old(self).stats
                }),
                self.pending() == old(self).pending(),
                self.auth_timeout == old(self).auth_timeout,
            decreases ids@.len() - j,
        {
            let ghost c = all[j as int];
            let ghost pre = all.take(j as int);
            proof {
                lemma_take_next(all, j as int);
                assert(!done.contains(c));
                assert(all.contains(c));
                assert(crate::manager::ids_view(ids@)[j as int] == ids@[j as int]@);
            }
            let ghost cur_users = self.users();
            let ghost cur_links = self.links();
            let ok = self.remove_connection(ids[j].as_str());
            if ok.is_ok() {
                proof {
                    assert(c0.contains_key(c));
                    assert(cur_links.contains_key(c) && cur_links[c] == l0[c]);
                    let p = l0[c].1;
                    let first = done.is_empty();
                    lemma_forget_step(t0, u, platforms_of(l0, done), first, p);
                    lemma_platforms_of_insert(l0, done, c);
                    if first {
                        assert(done.insert(c) =~= set![c]);
                        assert(platforms_of(l0, set![c]) =~= set![p]) by {
                            lemma_platforms_of_insert(l0, Set::empty(), c);
                            assert(platforms_of(l0, Set::<Seq<char>>::empty()) =~= Set::empty());
                            assert(Set::<Seq<char>>::empty().insert(c) =~= set![c]);
                            assert(Set::<PlatformView>::empty().insert(p) =~= set![p]);
                        }
                    }
                    done = done.insert(c);
                    dropped = dropped || forget_drops_user(cur_users, u, p);
                    assert(self.connection_manager.conns() =~= c0.remove_keys(done));
                    assert(self.connection_manager.handles() =~= h0.remove_keys(done));
                    assert(self.links() =~= l0.remove_keys(done));
                }
                count = count + 1;
            } else {
                proof {
                    assert(!c0.contains_key(c));
                }
            }
            j += 1;
        }
        proof {
            assert(all.take(ids@.len() as int) =~= all);
            assert(done =~= gone);
        }
        Ok(count)
    }

    /// Registers `connection` under `connection_id` with the underlying
    /// manager at `now` (as needing authentication) and, if that succeeded,
    /// as waiting for credentials. A refusal of the underlying manager is
    /// handed back and nothing changes.
    pub fn add_connection_at(&mut self, connection_id: String, connection: H, now: u64) -> (r: Result<(), FlareError>)
        requires
            old(self).wf(),
            old(self).spec_stats().pending_auth_connections < usize::MAX,
        ensures
            final(self).wf(),
            r is Ok <==> (old(self).base().conns().len() < usize::MAX && !old(self).base().conns().contains_key(
                connection_id@,
            )),
            r is Err ==> *final(self) == *old(self),
            r is Ok ==> {
                &&& final(self).base().conns() == old(self).base().conns().insert(
                    connection_id@,
                    crate::connection::fresh_info(connection_id@, true, now),
                )
                &&& final(self).base().handles() == old(self).base().handles().insert(connection_id@, connection)
                &&& final(self).pending() == old(self).pending().insert(connection_id@, fresh_pending_auth(now))
                &&& final(self).spec_stats() == (UserConnectionStats {
                    pending_auth_connections: (old(self).spec_stats().pending_auth_connections + 1) as usize,
                    ..old(self).spec_stats()
                })
                &&& final(self).users() == old(self).users()
                &&& final(self).links() == old(self).links()
            },
            final(self).spec_auth_timeout() == old(self).spec_auth_timeout(),
    {
        let id = connection_id.clone();
        match self.connection_manager.add_connection_with_limit_at(connection_id, connection, None, true, usize::MAX, now) {
            Err(e) => Err(e),
            Ok(()) => {
                let _ = self.add_pending_connection_at(id, now);
                proof {
                    assert(crate::connection::ConnectionInfoView {
                        user_id: None,
                        ..crate::connection::fresh_info(id@, true, now)
                    } == crate::connection::fresh_info(id@, true, now));
                }
                Ok(())
            },
        }
    }

    /// Applies an authentication verdict reached elsewhere for
    /// `connection_id`, at `now`: on success the authentication is
    /// completed for `user_id` on the platform named `platform` (see
    /// [`UserConnectionManager::complete_authentication_at`]); on failure a
    /// connection the underlying manager knows is disconnected (see
    /// [`UserConnectionManager::disconnect_unauthenticated_connection`]),
    /// and an unknown one is left alone.
    pub fn process_authentication_result_at(
        &mut self,
        connection_id: String,
        user_id: String,
        platform: &str,
        success: bool,
        now: u64,
    ) -> (r: Result<(), FlareError>)
        requires
            old(self).wf(),
            success ==> {
                &&& old(self).spec_stats().pending_auth_connections > 0
                &&& old(self).spec_stats().active_users < usize::MAX
                &&& old(self).spec_stats().total_connections < usize::MAX
                &&& old(self).spec_stats().active_connections < usize::MAX
                &&& old(self).spec_stats().total_users < usize::MAX
            },
            !success && old(self).pending().contains_key(connection_id@) && old(self).base().conns().contains_key(
                connection_id@,
            ) ==> old(self).spec_stats().pending_auth_connections > 0,
        ensures
            final(self).wf(),
            success ==> {
                &&& final(self).pending() == old(self).pending().remove(connection_id@)
                &&& (r is Err <==> !old(self).base().conns().contains_key(connection_id@))
                &&& r is Err ==> r->Err_0.code == ErrorCode::ConnectionFailed && final(self).users() == old(
                    self,
                ).users() && final(self).links() == old(self).links()
                &&& r is Ok ==> {
                    &&& final(self).users() == users_record(
                        old(self).users(),
                        user_id@,
                        crate::device::platform_from_name(platform@),
                        authenticated_info(user_id@, crate::device::platform_from_name(platform@), None, now),
                    )
                    &&& final(self).links() == old(self).links().insert(
                        connection_id@,
                        (user_id@, crate::device::platform_from_name(platform@)),
                    )
                }
            },
            !success && !old(self).base().conns().contains_key(connection_id@) ==> r is Ok && *final(self) == *old(
                self,
            ),
            !success && old(self).base().conns().contains_key(connection_id@) ==> {
                &&& (r is Err <==> !old(self).pending().contains_key(connection_id@))
                &&& r is Err ==> r->Err_0.code == ErrorCode::ConnectionFailed && *final(self) == *old(self)
                &&& r is Ok ==> final(self).base().conns() == old(self).base().conns().remove(connection_id@)
                    && final(self).pending() == old(self).pending().remove(connection_id@)
                    && final(self).users() == old(self).users() && final(self).links() == old(self).links()
            },
            final(self).spec_auth_timeout() == old(self).spec_auth_timeout(),
    {
        let platform_enum = DevicePlatform::from_str(platform);
        if success {
            self.complete_authentication_at(connection_id, user_id, platform_enum, None, now)
        } else {
            match self.connection_manager.get_connection(connection_id.as_str()) {
                None => Ok(()),
                Some(_) => self.disconnect_unauthenticated_connection(connection_id.as_str()),
            }
        }
    }

    /// [`UserConnectionManager::complete_authentication_at`] at the current
    /// time.
    pub fn complete_authentication(
        &mut self,
        connection_id: String,
        user_id: String,
        platform: DevicePlatform,
        device_id: Option<String>,
    ) -> (r: Result<(), FlareError>)
        requires
            old(self).wf(),
            old(self).spec_stats().pending_auth_connections > 0,
            old(self).spec_stats().active_users < usize::MAX,
            old(self).spec_stats().total_connections < usize::MAX,
            old(self).spec_stats().active_connections < usize::MAX,
            old(self).spec_stats().total_users < usize::MAX,
        ensures
            final(self).wf(),
            final(self).pending() == old(self).pending().remove(connection_id@),
            r is Err <==> !old(self).base().conns().contains_key(connection_id@),
            r is Err ==> r->Err_0.code == ErrorCode::ConnectionFailed && final(self).users() == old(self).users()
                && final(self).links() == old(self).links(),
            r is Ok ==> exists|now: u64|
                final(self).users() == users_record(
                    old(self).users(),
                    user_id@,
                    platform@,
                    #[trigger] authenticated_info(user_id@, platform@, opt_view(device_id), now),
                ),
            r is Ok ==> final(self).links() == old(self).links().insert(connection_id@, (user_id@, platform@)),
            final(self).spec_auth_timeout() == old(self).spec_auth_timeout(),
    {
        let now = current_timestamp_ms();
        let ghost u = user_id@;
        let ghost p = platform@;
        let ghost d = opt_view(device_id);
        let r = self.complete_authentication_at(connection_id, user_id, platform, device_id, now);
        proof {
            if r is Ok {
                assert(self.users() == users_record(old(self).users(), u, p, authenticated_info(u, p, d, now)));
            }
        }
        r
    }

    /// [`UserConnectionManager::add_connection_at`] at the current time.
    pub fn add_connection(&mut self, connection_id: String, connection: H) -> (r: Result<(), FlareError>)
        requires
            old(self).wf(),
            old(self).spec_stats().pending_auth_connections < usize::MAX,
        ensures
            final(self).wf(),
            r is Ok <==> (old(self).base().conns().len() < usize::MAX && !old(self).base().conns().contains_key(
                connection_id@,
            )),
            r is Err ==> *final(self) == *old(self),
            r is Ok ==> final(self).base().conns().dom() == old(self).base().conns().dom().insert(connection_id@)
                && final(self).pending().dom() == old(self).pending().dom().insert(connection_id@)
                && final(self).users() == old(self).users() && final(self).links() == old(self).links(),
            final(self).spec_auth_timeout() == old(self).spec_auth_timeout(),
    {
        let now = current_timestamp_ms();
        self.add_connection_at(connection_id, connection, now)
    }

    /// [`UserConnectionManager::process_authentication_result_at`] at the
    /// current time.
    pub fn process_authentication_result(
        &mut self,
        connection_id: String,
        user_id: String,
        platform: &str,
        success: bool,
    ) -> (r: Result<(), FlareError>)
        requires
            old(self).wf(),
            success ==> {
                &&& old(self).spec_stats().pending_auth_connections > 0
                &&& old(self).spec_stats().active_users < usize::MAX
                &&& old(self).spec_stats().total_connections < usize::MAX
                &&& old(self).spec_stats().active_connections < usize::MAX
                &&& old(self).spec_stats().total_users < usize::MAX
            },
            !success && old(self).pending().contains_key(connection_id@) && old(self).base().conns().contains_key(
                connection_id@,
            ) ==> old(self).spec_stats().pending_auth_connections > 0,
        ensures
            final(self).wf(),
            success ==> {
                &&& final(self).pending() == old(self).pending().remove(connection_id@)
                &&& (r is Err <==> !old(self).base().conns().contains_key(connection_id@))
                &&& r is Err ==> r->Err_0.code == ErrorCode::ConnectionFailed && final(self).users() == old(
                    self,
                ).users() && final(self).links() == old(self).links()
                &&& r is Ok ==> {
                    &&& exists|now: u64|
                        final(self).users() == users_record(
                            old(self).users(),
                            user_id@,
                            crate::device::platform_from_name(platform@),
                            #[trigger] authenticated_info(
                                user_id@,
                                crate::device::platform_from_name(platform@),
                                None,
                                now,
                            ),
                        )
                    &&& final(self).links() == old(self).links().insert(
                        connection_id@,
                        (user_id@, crate::device::platform_from_name(platform@)),
                    )
                }
            },
            !success && !old(self).base().conns().contains_key(connection_id@) ==> r is Ok && *final(self) == *old(
                self,
            ),
            !success && old(self).base().conns().contains_key(connection_id@) ==> {
                &&& (r is Err <==> !old(self).pending().contains_key(connection_id@))
                &&& r is Err ==> r->Err_0.code == ErrorCode::ConnectionFailed && *final(self) == *old(self)
                &&& r is Ok ==> final(self).base().conns() == old(self).base().conns().remove(connection_id@)
                    && final(self).pending() == old(self).pending().remove(connection_id@)
                    && final(self).users() == old(self).users() && final(self).links() == old(self).links()
            },
            final(self).spec_auth_timeout() == old(self).spec_auth_timeout(),
    {
        let now = current_timestamp_ms();
        let ghost u = user_id@;
        let ghost p = crate::device::platform_from_name(platform@);
        let r = self.process_authentication_result_at(connection_id, user_id, platform, success, now);
        proof {
            if success && r is Ok {
                assert(self.users() == users_record(old(self).users(), u, p, authenticated_info(u, p, None, now)));
            }
        }
        r
    }

    /// The user and platform `connection_id` is bound to.
    pub fn get_user_by_connection(&self, connection_id: &str) -> (r: Option<(String, DevicePlatform)>)
        requires
            self.wf(),
        ensures
            match r {
                Some((u, p)) => self.links().contains_key(connection_id@) && self.links()[connection_id@] == (u@, p@),
                None => !self.links().contains_key(connection_id@),
            },
    {
        let ghost ks = link_keys(self.connection_to_user@);
        let ghost vs = link_vals(self.connection_to_user@);
        match self.find_link(connection_id) {
            None => {
                proof {
                    lemma_kv_absent(ks, vs, connection_id@);
                }
                None
            },
            Some(i) => {
                proof {
                    lemma_kv_at(ks, vs, i as int);
                }
                let row = &self.connection_to_user[i];
                Some((row.user_id.clone(), row.platform.copy_platform()))
            },
        }
    }

    /// Copies of `user_id`'s connection info, one per platform.
    pub fn get_user_info(&self, user_id: &str) -> (r: Option<Vec<UserConnectionInfo>>)
        requires
            self.wf(),
        ensures
            match r {
                Some(v) => {
                    &&& self.users().contains_key(user_id@)
                    &&& row_keys(v@).no_duplicates()
                    &&& row_map(v@) == self.users()[user_id@]
                },
                None => !self.users().contains_key(user_id@),
            },
    {
        let ghost ks = user_keys(self.users@);
        let ghost vs = user_maps(self.users@);
        match self.find_user(user_id) {
            None => {
                proof {
                    lemma_kv_absent(ks, vs, user_id@);
                }
                None
            },
            Some(j) => {
                proof {
                    lemma_kv_at(ks, vs, j as int);
                    assert(row_wf(self.users@[j as int].platforms@));
                }
                let platforms = &self.users[j].platforms;
                let mut out: Vec<UserConnectionInfo> = Vec::new();
                let mut i: usize = 0;
                while i < platforms.len()
                    invariant
                        i <= platforms@.len(),
                        row_keys(out@) == row_keys(platforms@).take(i as int),
                        row_vals(out@) == row_vals(platforms@).take(i as int),
                    decreases platforms@.len() - i,
                {
                    let c = platforms[i].copy_info();
                    let ghost before = out@;
                    out.push(c);
                    assert(row_keys(out@) =~= row_keys(before).push(c.platform@));
                    assert(row_vals(out@) =~= row_vals(before).push(c@));
                    assert(row_keys(out@) =~= row_keys(platforms@).take(i + 1));
                    assert(row_vals(out@) =~= row_vals(platforms@).take(i + 1));
                    i += 1;
                }
                assert(row_keys(platforms@).take(platforms@.len() as int) =~= row_keys(platforms@));
                assert(row_vals(platforms@).take(platforms@.len() as int) =~= row_vals(platforms@));
                Some(out)
            },
        }
    }

    /// Number of connections waiting for credentials.
    pub fn get_pending_auth_count(&self) -> (n: usize)
        requires
            self.wf(),
        ensures
            n == self.pending().len(),
    {
        proof {
            lemma_kv_len(pend_keys(self.pending_auth_connections@), pend_vals(self.pending_auth_connections@));
        }
        self.pending_auth_connections.len()
    }

    /// Number of users with connection info.
    pub fn get_authenticated_user_count(&self) -> (n: usize)
        requires
            self.wf(),
        ensures
            n == self.users().len(),
    {
        proof {
            lemma_kv_len(user_keys(self.users@), user_maps(self.users@));
        }
        self.users.len()
    }
}

/// After a user is recorded on a platform, the user's info there is the
/// recorded one, and the user's other platforms are kept.
pub proof fn lemma_recorded_info_found(
    t: UserPlatformTable,
    u: Seq<char>,
    p: PlatformView,
    info: UserConnectionInfoView,
    q: PlatformView,
)
    ensures
        has_platform(users_record(t, u, p, info), u, p),
        users_record(t, u, p, info)[u][p] == info,
        q != p && has_platform(t, u, q) ==> has_platform(users_record(t, u, p, info), u, q) && users_record(
            t,
            u,
            p,
            info,
        )[u][q] == t[u][q],
{
}

/// After a bound connection goes away, its user has no info left on its
/// platform.
pub proof fn lemma_unlinked_platform_gone(t: UserPlatformTable, l: LinkTable, c: Seq<char>)
    requires
        l.contains_key(c),
    ensures
        !has_platform(unlink_users(t, l, c), l[c].0, l[c].1),
{
}

/// Once a user's connections are removed, none of the user's connections
/// that the underlying manager knows is left bound.
pub proof fn lemma_user_connections_gone(l: LinkTable, c: Set<Seq<char>>, u: Seq<char>)
    ensures
        live_user_connections(
            l.remove_keys(live_user_connections(l, u, c)),
            u,
            c.difference(live_user_connections(l, u, c)),
        ).is_empty(),
{
    let g = live_user_connections(l, u, c);
    assert(live_user_connections(l.remove_keys(g), u, c.difference(g)) =~= Set::empty());
}

/// After the sweep, no connection that the underlying manager knows is
/// still waiting beyond the timeout.
pub proof fn lemma_sweep_leaves_no_expired(p: PendingAuthTable, c: Set<Seq<char>>, timeout: u64, now: u64)
    ensures
        expired_pending(
            p.remove_keys(expired_pending(p, c, timeout, now)),
            c.difference(expired_pending(p, c, timeout, now)),
            timeout,
            now,
        ).is_empty(),
        forall|k: Seq<char>|
            p.contains_key(k) && !auth_wait_expired(p[k], timeout, now) ==> #[trigger] p.remove_keys(
                expired_pending(p, c, timeout, now),
            ).contains_key(k),
{
    let g = expired_pending(p, c, timeout, now);
    assert(expired_pending(p.remove_keys(g), c.difference(g), timeout, now) =~= Set::empty());
}

} // verus!
