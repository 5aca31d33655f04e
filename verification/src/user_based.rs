//! Connections grouped by user: the connections (handles of type `H`), each
//! user's connection ids in the order they came, the user each connection
//! belongs to, and counters; times in milliseconds.

use crate::error::{ErrorCode, FlareError};
use crate::keyed::{kv_map, kv_wf, lemma_kv_absent, lemma_kv_at, lemma_kv_len, lemma_kv_push, lemma_kv_remove, lemma_kv_update, lemma_take_next, lemma_push_contains};
use crate::manager::{ids_view, lemma_ids_push, position_of};
use crate::registry::{lemma_list_without, list_without, user_insert, user_remove, UserIndex};
use crate::stats::UserBasedStats;
use crate::strings::{concat3, str_eq};
use crate::utils::current_timestamp_ms;
use vstd::prelude::*;

verus! {

/// A user's connections, in the order they came, and when the user was
/// last active.
#[derive(Debug, Clone)]
pub struct UserConnectionInfo {
    pub user_id: String,
    pub connection_ids: Vec<String>,
    pub last_activity: u64,
}

/// When each user was last active.
pub type ActivityTable = Map<Seq<char>, u64>;

/// The user each connection belongs to.
pub type OwnerTable = Map<Seq<char>, Seq<char>>;

/// The default time between sweeps (ms).
pub const DEFAULT_CLEANUP_INTERVAL_MS: u64 = 30_000;

/// The user lists once connection `k` goes away: it leaves its owner's
/// list, and an owner left with none is dropped.
pub open spec fn users_after_unlink(users: UserIndex, owners: OwnerTable, k: Seq<char>) -> UserIndex {
    if owners.contains_key(k) {
        user_remove(users, owners[k], k)
    } else {
        users
    }
}

/// Connection `k` going away drops its owner.
pub open spec fn unlink_drops_user(users: UserIndex, owners: OwnerTable, k: Seq<char>) -> bool {
    owners.contains_key(k) && users.contains_key(owners[k]) && list_without(users[owners[k]], k).len() == 0
}

/// The activity table once connection `k` goes away at `now`: its owner
/// was active now, or is forgotten when dropped.
pub open spec fn activity_after_unlink(
    users: UserIndex,
    act: ActivityTable,
    owners: OwnerTable,
    k: Seq<char>,
    now: u64,
) -> ActivityTable {
    if owners.contains_key(k) && users.contains_key(owners[k]) {
        if list_without(users[owners[k]], k).len() == 0 {
            act.remove(owners[k])
        } else {
            act.insert(owners[k], now)
        }
    } else {
        act
    }
}

/// The user lists once the connections `ks` go away, one after another.
pub open spec fn sweep_users(users: UserIndex, owners: OwnerTable, ks: Seq<Seq<char>>) -> UserIndex
    decreases ks.len(),
{
    if ks.len() == 0 {
        users
    } else {
        users_after_unlink(sweep_users(users, owners, ks.drop_last()), owners, ks.last())
    }
}

/// The activity table once the connections `ks` go away at `now`.
pub open spec fn sweep_activity(
    users: UserIndex,
    act: ActivityTable,
    owners: OwnerTable,
    ks: Seq<Seq<char>>,
    now: u64,
) -> ActivityTable
    decreases ks.len(),
{
    if ks.len() == 0 {
        act
    } else {
        activity_after_unlink(
            sweep_users(users, owners, ks.drop_last()),
            sweep_activity(users, act, owners, ks.drop_last(), now),
            owners,
            ks.last(),
            now,
        )
    }
}

/// How many users the connections `ks` going away drops.
pub open spec fn sweep_drops(users: UserIndex, owners: OwnerTable, ks: Seq<Seq<char>>) -> nat
    decreases ks.len(),
{
    if ks.len() == 0 {
        0
    } else {
        sweep_drops(users, owners, ks.drop_last()) + if unlink_drops_user(
            sweep_users(users, owners, ks.drop_last()),
            owners,
            ks.last(),
        ) {
            1nat
        } else {
            0nat
        }
    }
}

/// A connection last active at `t` has been idle longer than `timeout` at
/// `now`.
pub open spec fn idle_too_long(t: u64, timeout: u64, now: u64) -> bool {
    now > t && now - t > timeout
}

/// Some report in `reported` (connection id, last activity) says `k` has
/// been idle too long.
pub open spec fn reported_idle(reported: Seq<(Seq<char>, u64)>, k: Seq<char>, timeout: u64, now: u64) -> bool {
    exists|i: int| 0 <= i < reported.len() && #[trigger] reported[i].0 == k && idle_too_long(reported[i].1, timeout, now)
}

/// The ids of `ks`, in order, reported idle too long.
pub open spec fn idle_ids(ks: Seq<Seq<char>>, reported: Seq<(Seq<char>, u64)>, timeout: u64, now: u64) -> Seq<Seq<char>>
    decreases ks.len(),
{
    if ks.len() == 0 {
        ks
    } else if reported_idle(reported, ks.last(), timeout, now) {
        idle_ids(ks.drop_last(), reported, timeout, now).push(ks.last())
    } else {
        idle_ids(ks.drop_last(), reported, timeout, now)
    }
}

/// The views of reports.
pub open spec fn reports_view(v: Seq<(String, u64)>) -> Seq<(Seq<char>, u64)> {
    v.map_values(|e: (String, u64)| (e.0@, e.1))
}

/// The message of the refusal to send to an unknown connection.
pub open spec fn unknown_target_message(id: Seq<char>) -> Seq<char> {
    "连接不存在: "@ + id
}

/// The ids of `l`, in order, that are in `dom`.
pub open spec fn registered_ids(l: Seq<Seq<char>>, dom: Set<Seq<char>>) -> Seq<Seq<char>>
    decreases l.len(),
{
    if l.len() == 0 {
        l
    } else if dom.contains(l.last()) {
        registered_ids(l.drop_last(), dom).push(l.last())
    } else {
        registered_ids(l.drop_last(), dom)
    }
}

proof fn lemma_idle_ids(ks: Seq<Seq<char>>, reported: Seq<(Seq<char>, u64)>, timeout: u64, now: u64)
    ensures
        idle_ids(ks, reported, timeout, now).len() <= ks.len(),
        forall|x: Seq<char>|
            #[trigger] idle_ids(ks, reported, timeout, now).contains(x) <==> (ks.contains(x) && reported_idle(
                reported,
                x,
                timeout,
                now,
            )),
        ks.no_duplicates() ==> idle_ids(ks, reported, timeout, now).no_duplicates(),
    decreases ks.len(),
{
    if ks.len() > 0 {
        let pre = ks.drop_last();
        let x0 = ks.last();
        lemma_idle_ids(pre, reported, timeout, now);
        let r0 = idle_ids(pre, reported, timeout, now);
        assert(ks =~= pre.push(x0));
        lemma_push_contains(pre, x0);
        if reported_idle(reported, x0, timeout, now) {
            let r = r0.push(x0);
            lemma_push_contains(r0, x0);
            if ks.no_duplicates() {
                assert(pre.no_duplicates()) by {
                    assert forall|a: int, b: int| 0 <= a < pre.len() && 0 <= b < pre.len() && a != b implies pre[a] != pre[b] by {
                        assert(ks[a] == pre[a] && ks[b] == pre[b]);
                    }
                }
                lemma_take_next(ks, ks.len() - 1);
                assert(ks.take(ks.len() - 1) =~= pre);
                assert(!r0.contains(x0));
                assert(r.no_duplicates());
            }
        } else {
            if ks.no_duplicates() {
                assert(pre.no_duplicates()) by {
                    assert forall|a: int, b: int| 0 <= a < pre.len() && 0 <= b < pre.len() && a != b implies pre[a] != pre[b] by {
                        assert(ks[a] == pre[a] && ks[b] == pre[b]);
                    }
                }
            }
        }
    }
}

spec fn ub_keys(v: Seq<UserConnectionInfo>) -> Seq<Seq<char>> {
    v.map_values(|u: UserConnectionInfo| u.user_id@)
}

spec fn ub_lists(v: Seq<UserConnectionInfo>) -> Seq<Seq<Seq<char>>> {
    v.map_values(|u: UserConnectionInfo| ids_view(u.connection_ids@))
}

spec fn ub_acts(v: Seq<UserConnectionInfo>) -> Seq<u64> {
    v.map_values(|u: UserConnectionInfo| u.last_activity)
}

spec fn own_keys(v: Seq<(String, String)>) -> Seq<Seq<char>> {
    v.map_values(|e: (String, String)| e.0@)
}

spec fn own_vals(v: Seq<(String, String)>) -> Seq<Seq<char>> {
    v.map_values(|e: (String, String)| e.1@)
}

spec fn conn_keys<H>(v: Seq<(String, H)>) -> Seq<Seq<char>> {
    v.map_values(|e: (String, H)| e.0@)
}

spec fn conn_vals<H>(v: Seq<(String, H)>) -> Seq<H> {
    v.map_values(|e: (String, H)| e.1)
}

/// Every user's list repeats no id and is not empty.
pub open spec fn lists_ok(users: UserIndex) -> bool {
    forall|u: Seq<char>| #[trigger] users.contains_key(u) ==> users[u].no_duplicates() && users[u].len() > 0
}

/// Connections grouped by user.
pub struct UserBasedManager<H> {
    users: Vec<UserConnectionInfo>,
    connection_to_user: Vec<(String, String)>,
    connections: Vec<(String, H)>,
    stats: UserBasedStats,
    last_cleanup: u64,
    cleanup_interval: u64,
}

impl<H> UserBasedManager<H> {
    /// Each user's connection ids, in the order they came.
    pub closed spec fn user_lists(&self) -> UserIndex {
        kv_map(ub_keys(self.users@), ub_lists(self.users@))
    }

    /// When each user was last active.
    pub closed spec fn activity(&self) -> ActivityTable {
        kv_map(ub_keys(self.users@), ub_acts(self.users@))
    }

    /// The user each connection belongs to.
    pub closed spec fn owners(&self) -> OwnerTable {
        kv_map(own_keys(self.connection_to_user@), own_vals(self.connection_to_user@))
    }

    /// The connections, by id.
    pub closed spec fn conns(&self) -> Map<Seq<char>, H> {
        kv_map(conn_keys(self.connections@), conn_vals(self.connections@))
    }

    /// The connection ids in the order they were registered.
    pub closed spec fn conn_order(&self) -> Seq<Seq<char>> {
        conn_keys(self.connections@)
    }

    /// The counters.
    pub closed spec fn spec_stats(&self) -> UserBasedStats {
        self.stats
    }

    /// When the last sweep removed something (or the manager started).
    pub closed spec fn spec_last_cleanup(&self) -> u64 {
        self.last_cleanup
    }

    /// The time between sweeps (ms).
    pub closed spec fn spec_cleanup_interval(&self) -> u64 {
        self.cleanup_interval
    }

    /// Keys are distinct in every table, user lists repeat no id and are
    /// not empty, and the active counters cover the users and connections.
    pub closed spec fn wf(&self) -> bool {
        &&& kv_wf(ub_keys(self.users@), ub_lists(self.users@))
        &&& kv_wf(ub_keys(self.users@), ub_acts(self.users@))
        &&& lists_ok(self.user_lists())
        &&& kv_wf(own_keys(self.connection_to_user@), own_vals(self.connection_to_user@))
        &&& kv_wf(conn_keys(self.connections@), conn_vals(self.connections@))
        &&& self.stats.active_users >= self.users@.len()
        &&& self.stats.active_connections >= self.connections@.len()
    }

    /// An empty manager started at `now`, sweeping every
    /// [`DEFAULT_CLEANUP_INTERVAL_MS`].
    pub fn new_at(now: u64) -> (m: Self)
        ensures
            m.wf(),
            m.user_lists().is_empty(),
            m.activity().is_empty(),
            m.owners().is_empty(),
            m.conns().is_empty(),
            m.spec_stats() == (UserBasedStats {
                total_users: 0,
                active_users: 0,
                total_connections: 0,
                active_connections: 0,
                total_messages: 0,
                started_at: now,
            }),
            m.spec_last_cleanup() == now,
            m.spec_cleanup_interval() == DEFAULT_CLEANUP_INTERVAL_MS,
    {
        let m = UserBasedManager {
            users: Vec::new(),
            connection_to_user: Vec::new(),
            connections: Vec::new(),
            stats: UserBasedStats {
                total_users: 0,
                active_users: 0,
                total_connections: 0,
                active_connections: 0,
                total_messages: 0,
                started_at: now,
            },
            last_cleanup: now,
            cleanup_interval: DEFAULT_CLEANUP_INTERVAL_MS,
        };
        assert(m.user_lists() =~= Map::empty());
        assert(m.activity() =~= Map::empty());
        assert(m.owners() =~= Map::empty());
        assert(m.conns() =~= Map::empty());
        m
    }

    /// [`UserBasedManager::new_at`], started now.
    pub fn new() -> (m: Self)
        ensures
            m.wf(),
            m.user_lists().is_empty(),
            m.owners().is_empty(),
            m.conns().is_empty(),
            m.spec_stats().total_users == 0 && m.spec_stats().active_users == 0 && m.spec_stats().total_connections
                == 0 && m.spec_stats().active_connections == 0 && m.spec_stats().total_messages == 0,
            m.spec_cleanup_interval() == DEFAULT_CLEANUP_INTERVAL_MS,
    {
        let now = current_timestamp_ms();
        Self::new_at(now)
    }

    /// The same manager, sweeping every `interval` ms.
    pub fn with_cleanup_interval(self, interval: u64) -> (m: Self)
        ensures
            m.user_lists() == self.user_lists(),
            m.activity() == self.activity(),
            m.owners() == self.owners(),
            m.conns() == self.conns(),
            m.conn_order() == self.conn_order(),
            m.spec_stats() == self.spec_stats(),
            m.spec_last_cleanup() == self.spec_last_cleanup(),
            m.spec_cleanup_interval() == interval,
            self.wf() ==> m.wf(),
    {
        UserBasedManager { cleanup_interval: interval, ..self }
    }

    fn find_conn(&self, id: &str) -> (r: Option<usize>)
        ensures
            match r {
                Some(i) => i < self.connections@.len() && conn_keys(self.connections@)[i as int] == id@,
                None => !conn_keys(self.connections@).contains(id@),
            },
    {
        let mut i: usize = 0;
        while i < self.connections.len()
            invariant
                i <= self.connections@.len(),
                forall|j: int| 0 <= j < i ==> conn_keys(self.connections@)[j] != id@,
            decreases self.connections@.len() - i,
        {
            if str_eq(self.connections[i].0.as_str(), id) {
                return Some(i);
            }
            i += 1;
        }
        None
    }

    fn find_owner(&self, id: &str) -> (r: Option<usize>)
        ensures
            match r {
                Some(i) => i < self.connection_to_user@.len() && own_keys(self.connection_to_user@)[i as int] == id@,
                None => !own_keys(self.connection_to_user@).contains(id@),
            },
    {
        let mut i: usize = 0;
        while i < self.connection_to_user.len()
            invariant
                i <= self.connection_to_user@.len(),
                forall|j: int| 0 <= j < i ==> own_keys(self.connection_to_user@)[j] != id@,
            decreases self.connection_to_user@.len() - i,
        {
            if str_eq(self.connection_to_user[i].0.as_str(), id) {
                return Some(i);
            }
            i += 1;
        }
        None
    }

    fn find_user(&self, user_id: &str) -> (r: Option<usize>)
        ensures
            match r {
                Some(j) => j < self.users@.len() && ub_keys(self.users@)[j as int] == user_id@,
                None => !ub_keys(self.users@).contains(user_id@),
            },
    {
        let mut j: usize = 0;
        while j < self.users.len()
            invariant
                j <= self.users@.len(),
                forall|k: int| 0 <= k < j ==> ub_keys(self.users@)[k] != user_id@,
            decreases self.users@.len() - j,
        {
            if str_eq(self.users[j].user_id.as_str(), user_id) {
                return Some(j);
            }
            j += 1;
        }
        None
    }

    /// Stores `connection` under `id`, replacing the one there.
    fn put_conn(&mut self, id: String, connection: H)
        requires
            kv_wf(conn_keys(old(self).connections@), conn_vals(old(self).connections@)),
        ensures
            kv_wf(conn_keys(final(self).connections@), conn_vals(final(self).connections@)),
            final(self).conns() == old(self).conns().insert(id@, connection),
            final(self).connections@.len() <= old(self).connections@.len() + 1,
            final(self).users == old(self).users,
            final(self).connection_to_user == old(self).connection_to_user,
            final(self).stats == old(self).stats,
            final(self).last_cleanup == old(self).last_cleanup,
            final(self).cleanup_interval == old(self).cleanup_interval,
    {
        let ghost ks = conn_keys(self.connections@);
        let ghost vs = conn_vals(self.connections@);
        let ghost kv = id@;
        let ghost hv = connection;
        match self.find_conn(id.as_str()) {
            Some(i) => {
                self.connections.set(i, (id, connection));
                proof {
                    assert(conn_keys(self.connections@) =~= ks);
                    assert(conn_vals(self.connections@) =~= vs.update(i as int, hv));
                    lemma_kv_update(ks, vs, i as int, hv);
                }
            },
            None => {
                self.connections.push((id, connection));
                proof {
                    assert(conn_keys(self.connections@) =~= ks.push(kv));
                    assert(conn_vals(self.connections@) =~= vs.push(hv));
                    lemma_kv_push(ks, vs, kv, hv);
                }
            },
        }
    }

    /// Drops the connection under `id`, handing it back.
    fn take_conn(&mut self, id: &str) -> (r: Option<H>)
        requires
            kv_wf(conn_keys(old(self).connections@), conn_vals(old(self).connections@)),
        ensures
            kv_wf(conn_keys(final(self).connections@), conn_vals(final(self).connections@)),
            final(self).conns() == old(self).conns().remove(id@),
            match r {
                Some(h) => old(self).conns().contains_key(id@) && h == old(self).conns()[id@]
                    && final(self).connections@.len() + 1 == old(self).connections@.len(),
                None => !old(self).conns().contains_key(id@) && final(self).connections@.len()
                    == old(self).connections@.len(),
            },
            final(self).users == old(self).users,
            final(self).connection_to_user == old(self).connection_to_user,
            final(self).stats == old(self).stats,
            final(self).last_cleanup == old(self).last_cleanup,
            final(self).cleanup_interval == old(self).cleanup_interval,
    {
        let ghost ks = conn_keys(self.connections@);
        let ghost vs = conn_vals(self.connections@);
        match self.find_conn(id) {
            None => {
                proof {
                    lemma_kv_absent(ks, vs, id@);
                    assert(kv_map(ks, vs).remove(id@) =~= kv_map(ks, vs));
                }
                None
            },
            Some(i) => {
                proof {
                    lemma_kv_at(ks, vs, i as int);
                    lemma_kv_remove(ks, vs, i as int);
                }
                let (_, h) = self.connections.remove(i);
                proof {
                    assert(conn_keys(self.connections@) =~= ks.remove(i as int));
                    assert(conn_vals(self.connections@) =~= vs.remove(i as int));
                }
                Some(h)
            },
        }
    }

    /// Records that connection `id` belongs to `user_id`.
    fn put_owner(&mut self, id: String, user_id: String)
        requires
            kv_wf(own_keys(old(self).connection_to_user@), own_vals(old(self).connection_to_user@)),
        ensures
            kv_wf(own_keys(final(self).connection_to_user@), own_vals(final(self).connection_to_user@)),
            final(self).owners() == old(self).owners().insert(id@, user_id@),
            final(self).users == old(self).users,
            final(self).connections == old(self).connections,
            final(self).stats == old(self).stats,
            final(self).last_cleanup == old(self).last_cleanup,
            final(self).cleanup_interval == old(self).cleanup_interval,
    {
        let ghost ks = own_keys(self.connection_to_user@);
        let ghost vs = own_vals(self.connection_to_user@);
        let ghost kv = id@;
        let ghost uv = user_id@;
        match self.find_owner(id.as_str()) {
            Some(i) => {
                self.connection_to_user.set(i, (id, user_id));
                proof {
                    assert(own_keys(self.connection_to_user@) =~= ks);
                    assert(own_vals(self.connection_to_user@) =~= vs.update(i as int, uv));
                    lemma_kv_update(ks, vs, i as int, uv);
                }
            },
            None => {
                self.connection_to_user.push((id, user_id));
                proof {
                    assert(own_keys(self.connection_to_user@) =~= ks.push(kv));
                    assert(own_vals(self.connection_to_user@) =~= vs.push(uv));
                    lemma_kv_push(ks, vs, kv, uv);
                }
            },
        }
    }

    /// Forgets whom connection `id` belongs to, handing the user back.
    fn take_owner(&mut self, id: &str) -> (r: Option<String>)
        requires
            kv_wf(own_keys(old(self).connection_to_user@), own_vals(old(self).connection_to_user@)),
        ensures
            kv_wf(own_keys(final(self).connection_to_user@), own_vals(final(self).connection_to_user@)),
            final(self).owners() == old(self).owners().remove(id@),
            match r {
                Some(u) => old(self).owners().contains_key(id@) && u@ == old(self).owners()[id@],
                None => !old(self).owners().contains_key(id@),
            },
            final(self).users == old(self).users,
            final(self).connections == old(self).connections,
            final(self).stats == old(self).stats,
            final(self).last_cleanup == old(self).last_cleanup,
            final(self).cleanup_interval == old(self).cleanup_interval,
    {
        let ghost ks = own_keys(self.connection_to_user@);
        let ghost vs = own_vals(self.connection_to_user@);
        match self.find_owner(id) {
            None => {
                proof {
                    lemma_kv_absent(ks, vs, id@);
                    assert(kv_map(ks, vs).remove(id@) =~= kv_map(ks, vs));
                }
                None
            },
            Some(i) => {
                proof {
                    lemma_kv_at(ks, vs, i as int);
                    lemma_kv_remove(ks, vs, i as int);
                }
                let (_, u) = self.connection_to_user.remove(i);
                proof {
                    assert(own_keys(self.connection_to_user@) =~= ks.remove(i as int));
                    assert(own_vals(self.connection_to_user@) =~= vs.remove(i as int));
                }
                Some(u)
            },
        }
    }

    /// Lists connection `id` under `user_id` (unless already listed there);
    /// a user that gains a connection was active at `now`. Tells whether
    /// the user is new.
    fn link_user(&mut self, user_id: String, id: &str, now: u64) -> (is_new: bool)
        requires
            kv_wf(ub_keys(old(self).users@), ub_lists(old(self).users@)),
            kv_wf(ub_keys(old(self).users@), ub_acts(old(self).users@)),
            lists_ok(old(self).user_lists()),
        ensures
            kv_wf(ub_keys(final(self).users@), ub_lists(final(self).users@)),
            kv_wf(ub_keys(final(self).users@), ub_acts(final(self).users@)),
            lists_ok(final(self).user_lists()),
            final(self).user_lists() == user_insert(old(self).user_lists(), user_id@, id@),
            final(self).activity() == if old(self).user_lists().contains_key(user_id@) && old(
                self,
            ).user_lists()[user_id@].contains(id@) {
                old(self).activity()
            } else {
                old(self).activity().insert(user_id@, now)
            },
            is_new == !old(self).user_lists().contains_key(user_id@),
            is_new ==> final(self).users@.len() == old(self).users@.len() + 1,
            !is_new ==> final(self).users@.len() == old(self).users@.len(),
            final(self).connections == old(self).connections,
            final(self).connection_to_user == old(self).connection_to_user,
            final(self).stats == old(self).stats,
            final(self).last_cleanup == old(self).last_cleanup,
            final(self).cleanup_interval == old(self).cleanup_interval,
    {
        let ghost ks = ub_keys(self.users@);
        let ghost ls = ub_lists(self.users@);
        let ghost acts = ub_acts(self.users@);
        let ghost t0 = self.user_lists();
        let ghost uv = user_id@;
        let ghost kv = id@;
        match self.find_user(user_id.as_str()) {
            Some(j) => {
                proof {
                    lemma_kv_at(ks, ls, j as int);
                    lemma_kv_at(ks, acts, j as int);
                }
                let present = position_of(&self.users[j].connection_ids, id);
                if present.is_none() {
                    let mut row = self.users.remove(j);
                    let ghost l = ids_view(row.connection_ids@);
                    let owned = id.to_owned();
                    proof {
                        lemma_ids_push(row.connection_ids@, owned);
                    }
                    row.connection_ids.push(owned);
                    row.last_activity = now;
                    assert(ids_view(row.connection_ids@) =~= l.push(kv));
                    self.users.insert(j, row);
                    proof {
                        assert(ub_keys(self.users@) =~= ks);
                        assert(ub_lists(self.users@) =~= ls.update(j as int, l.push(kv)));
                        assert(ub_acts(self.users@) =~= acts.update(j as int, now));
                        lemma_kv_update(ks, ls, j as int, l.push(kv));
                        lemma_kv_update(ks, acts, j as int, now);
                        assert(!l.contains(kv));
                        assert(l.push(kv).no_duplicates()) by {
                            let m = l.push(kv);
                            assert forall|a: int, b: int| 0 <= a < m.len() && 0 <= b < m.len() && a != b implies m[a]
                                != m[b] by {
                                if a < l.len() && b < l.len() {
                                    assert(l[a] != l[b]);
                                } else if a == l.len() {
                                    assert(m[b] == l[b]);
                                } else {
                                    assert(m[a] == l[a]);
                                }
                            }
                        }
                        assert forall|w: Seq<char>| #[trigger] self.user_lists().contains_key(w) implies self.user_lists()[w].no_duplicates()
                            && self.user_lists()[w].len() > 0 by {
                            if w != uv {
                                assert(t0.contains_key(w));
                            }
                        }
                    }
                } else {
                    proof {
                        let p = present->0;
                        assert(ls[j as int].contains(kv)) by {
                            assert(ls[j as int][p as int] == kv);
                        }
                    }
                    assert(self.activity() == old(self).activity());
                }
                false
            },
            None => {
                proof {
                    lemma_kv_absent(ks, ls, uv);
                    lemma_kv_absent(ks, acts, uv);
                }
                let mut ids: Vec<String> = Vec::new();
                ids.push(id.to_owned());
                assert(ids_view(ids@) =~= seq![kv]);
                self.users.push(UserConnectionInfo { user_id, connection_ids: ids, last_activity: now });
                proof {
                    assert(ub_keys(self.users@) =~= ks.push(uv));
                    assert(ub_lists(self.users@) =~= ls.push(seq![kv]));
                    assert(ub_acts(self.users@) =~= acts.push(now));
                    lemma_kv_push(ks, ls, uv, seq![kv]);
                    lemma_kv_push(ks, acts, uv, now);
                    assert forall|w: Seq<char>| #[trigger] self.user_lists().contains_key(w) implies self.user_lists()[w].no_duplicates()
                        && self.user_lists()[w].len() > 0 by {
                        if w != uv {
                            assert(t0.contains_key(w));
                        }
                    }
                }
                true
            },
        }
    }

    /// Drops connection `k` from `user_id`'s list; a user left with none is
    /// dropped, else it was active at `now`. Tells whether the user was
    /// dropped.
    fn unlink_user(&mut self, user_id: &str, k: &str, now: u64) -> (dropped: bool)
        requires
            kv_wf(ub_keys(old(self).users@), ub_lists(old(self).users@)),
            kv_wf(ub_keys(old(self).users@), ub_acts(old(self).users@)),
            lists_ok(old(self).user_lists()),
        ensures
            kv_wf(ub_keys(final(self).users@), ub_lists(final(self).users@)),
            kv_wf(ub_keys(final(self).users@), ub_acts(final(self).users@)),
            lists_ok(final(self).user_lists()),
            final(self).user_lists() == user_remove(old(self).user_lists(), user_id@, k@),
            final(self).activity() == if old(self).user_lists().contains_key(user_id@) {
                if list_without(old(self).user_lists()[user_id@], k@).len() == 0 {
                    old(self).activity().remove(user_id@)
                } else {
                    old(self).activity().insert(user_id@, now)
                }
            } else {
                old(self).activity()
            },
            dropped == (old(self).user_lists().contains_key(user_id@) && list_without(
                old(self).user_lists()[user_id@],
                k@,
            ).len() == 0),
            dropped ==> final(self).users@.len() + 1 == old(self).users@.len(),
            !dropped ==> final(self).users@.len() == old(self).users@.len(),
            final(self).connections == old(self).connections,
            final(self).connection_to_user == old(self).connection_to_user,
            final(self).stats == old(self).stats,
            final(self).last_cleanup == old(self).last_cleanup,
            final(self).cleanup_interval == old(self).cleanup_interval,
    {
        let ghost ks = ub_keys(self.users@);
        let ghost ls = ub_lists(self.users@);
        let ghost acts = ub_acts(self.users@);
        let ghost t0 = self.user_lists();
        let ghost uv = user_id@;
        match self.find_user(user_id) {
            None => {
                proof {
                    lemma_kv_absent(ks, ls, uv);
                    lemma_kv_absent(ks, acts, uv);
                }
                false
            },
            Some(j) => {
                proof {
                    lemma_kv_at(ks, ls, j as int);
                    lemma_kv_at(ks, acts, j as int);
                }
                let mut row = self.users.remove(j);
                let ghost l = ids_view(row.connection_ids@);
                assert(l == ls[j as int]);
                proof {
                    assert(t0.contains_key(uv));
                    lemma_list_without(l, k@);
                }
                let found = position_of(&row.connection_ids, k);
                if let Some(p) = found {
                    proof {
                        lemma_kv_at(l, l, p as int);
                        assert(l.contains(k@));
                    }
                    row.connection_ids.remove(p);
                    assert(ids_view(row.connection_ids@) =~= l.remove(p as int));
                }
                assert(ids_view(row.connection_ids@) == list_without(l, k@));
                if row.connection_ids.len() == 0 {
                    proof {
                        assert(ub_keys(self.users@) =~= ks.remove(j as int));
                        assert(ub_lists(self.users@) =~= ls.remove(j as int));
                        assert(ub_acts(self.users@) =~= acts.remove(j as int));
                        lemma_kv_remove(ks, ls, j as int);
                        lemma_kv_remove(ks, acts, j as int);
                        assert forall|w: Seq<char>| #[trigger] self.user_lists().contains_key(w) implies self.user_lists()[w].no_duplicates()
                            && self.user_lists()[w].len() > 0 by {
                            assert(t0.contains_key(w));
                        }
                    }
                    true
                } else {
                    row.last_activity = now;
                    let ghost nl = ids_view(row.connection_ids@);
                    self.users.insert(j, row);
                    proof {
                        assert(ub_keys(self.users@) =~= ks);
                        assert(ub_lists(self.users@) =~= ls.update(j as int, nl));
                        assert(ub_acts(self.users@) =~= acts.update(j as int, now));
                        lemma_kv_update(ks, ls, j as int, nl);
                        lemma_kv_update(ks, acts, j as int, now);
                        assert forall|w: Seq<char>| #[trigger] self.user_lists().contains_key(w) implies self.user_lists()[w].no_duplicates()
                            && self.user_lists()[w].len() > 0 by {
                            if w != uv {
                                assert(t0.contains_key(w));
                            }
                        }
                    }
                    false
                }
            },
        }
    }

    /// Registers `connection` under `connection_id` for `user_id` at `now`:
    /// the connection is stored (replacing one under that id), listed under
    /// the user (once), and bound to the user; a new user is counted, and
    /// so is the connection.
    pub fn add_user_connection_at(&mut self, user_id: String, connection_id: String, connection: H, now: u64) -> (r:
        Result<(), FlareError>)
        requires
            old(self).wf(),
            old(self).spec_stats().total_connections < usize::MAX,
            old(self).spec_stats().active_connections < usize::MAX,
            !old(self).user_lists().contains_key(user_id@) ==> old(self).spec_stats().total_users < usize::MAX
                && old(self).spec_stats().active_users < usize::MAX,
        ensures
            final(self).wf(),
            r is Ok,
            final(self).conns() == old(self).conns().insert(connection_id@, connection),
            final(self).user_lists() == user_insert(old(self).user_lists(), user_id@, connection_id@),
            final(self).activity() == if old(self).user_lists().contains_key(user_id@) && old(
                self,
            ).user_lists()[user_id@].contains(connection_id@) {
                old(self).activity()
            } else {
                old(self).activity().insert(user_id@, now)
            },
            final(self).owners() == old(self).owners().insert(connection_id@, user_id@),
            final(self).spec_stats() == (UserBasedStats {
                total_users: if old(self).user_lists().contains_key(user_id@) {
                    old(self).spec_stats().total_users
                } else {
                    (old(self).spec_stats().total_users + 1) as usize
                },
                active_users: if old(self).user_lists().contains_key(user_id@) {
                    old(self).spec_stats().active_users
                } else {
                    (old(self).spec_stats().active_users + 1) as usize
                },
                total_connections: (old(self).spec_stats().total_connections + 1) as usize,
                active_connections: (old(self).spec_stats().active_connections + 1) as usize,
                ..old(self).spec_stats()
            }),
            final(self).spec_last_cleanup() == old(self).spec_last_cleanup(),
            final(self).spec_cleanup_interval() == old(self).spec_cleanup_interval(),
    {
        self.put_conn(connection_id.clone(), connection);
        let is_new = self.link_user(user_id.clone(), connection_id.as_str(), now);
        if is_new {
            self.stats.total_users = self.stats.total_users + 1;
            self.stats.active_users = self.stats.active_users + 1;
        }
        self.put_owner(connection_id, user_id);
        self.stats.total_connections = self.stats.total_connections + 1;
        self.stats.active_connections = self.stats.active_connections + 1;
        Ok(())
    }

    /// [`UserBasedManager::add_user_connection_at`] at the current time.
    pub fn add_user_connection(&mut self, user_id: String, connection_id: String, connection: H) -> (r: Result<
        (),
        FlareError,
    >)
        requires
            old(self).wf(),
            old(self).spec_stats().total_connections < usize::MAX,
            old(self).spec_stats().active_connections < usize::MAX,
            !old(self).user_lists().contains_key(user_id@) ==> old(self).spec_stats().total_users < usize::MAX
                && old(self).spec_stats().active_users < usize::MAX,
        ensures
            final(self).wf(),
            r is Ok,
            final(self).conns() == old(self).conns().insert(connection_id@, connection),
            final(self).user_lists() == user_insert(old(self).user_lists(), user_id@, connection_id@),
            final(self).owners() == old(self).owners().insert(connection_id@, user_id@),
    {
        let now = current_timestamp_ms();
        self.add_user_connection_at(user_id, connection_id, connection, now)
    }

    /// Removes connection `connection_id` at `now`: it is no longer stored
    /// or bound, and leaves its user's list (a user left with none is
    /// dropped and no longer counted active; else it was active now). The
    /// active connection count drops when a bound connection was stored.
    pub fn remove_connection_at(&mut self, connection_id: &str, now: u64) -> (r: Result<(), FlareError>)
        requires
            old(self).wf(),
        ensures
            final(self).wf(),
            r is Ok,
            final(self).conns() == old(self).conns().remove(connection_id@),
            final(self).owners() == old(self).owners().remove(connection_id@),
            final(self).user_lists() == users_after_unlink(old(self).user_lists(), old(self).owners(), connection_id@),
            final(self).activity() == activity_after_unlink(
                old(self).user_lists(),
                old(self).activity(),
                old(self).owners(),
                connection_id@,
                now,
            ),
            final(self).spec_stats() == (UserBasedStats {
                active_users: if unlink_drops_user(old(self).user_lists(), old(self).owners(), connection_id@) {
                    (old(self).spec_stats().active_users - 1) as usize
                } else {
                    old(self).spec_stats().active_users
                },
                active_connections: if old(self).owners().contains_key(connection_id@) && old(
                    self,
                ).conns().contains_key(connection_id@) {
                    (old(self).spec_stats().active_connections - 1) as usize
                } else {
                    old(self).spec_stats().active_connections
                },
                ..old(self).spec_stats()
            }),
            final(self).spec_last_cleanup() == old(self).spec_last_cleanup(),
            final(self).spec_cleanup_interval() == old(self).spec_cleanup_interval(),
    {
        let owner = self.take_owner(connection_id);
        let removed = self.take_conn(connection_id).is_some();
        match owner {
            Some(u) => {
                let dropped = self.unlink_user(u.as_str(), connection_id, now);
                if dropped {
                    self.stats.active_users = self.stats.active_users - 1;
                }
                if removed {
                    self.stats.active_connections = self.stats.active_connections - 1;
                }
            },
            None => {},
        }
        Ok(())
    }

    /// [`UserBasedManager::remove_connection_at`] at the current time.
    pub fn remove_connection(&mut self, connection_id: &str) -> (r: Result<(), FlareError>)
        requires
            old(self).wf(),
        ensures
            final(self).wf(),
            r is Ok,
            final(self).conns() == old(self).conns().remove(connection_id@),
            final(self).owners() == old(self).owners().remove(connection_id@),
            final(self).user_lists() == users_after_unlink(old(self).user_lists(), old(self).owners(), connection_id@),
    {
        let now = current_timestamp_ms();
        self.remove_connection_at(connection_id, now)
    }

    /// The ids listed under `user_id` whose connections are stored, in the
    /// order they came (none for an unknown user).
    pub fn get_user_connections(&self, user_id: &str) -> (r: Vec<String>)
        requires
            self.wf(),
        ensures
            ids_view(r@) == if self.user_lists().contains_key(user_id@) {
                registered_ids(self.user_lists()[user_id@], self.conns().dom())
            } else {
                Seq::empty()
            },
    {
        let ghost ks = ub_keys(self.users@);
        let ghost ls = ub_lists(self.users@);
        let mut r: Vec<String> = Vec::new();
        match self.find_user(user_id) {
            None => {
                proof {
                    lemma_kv_absent(ks, ls, user_id@);
                }
                assert(ids_view(r@) =~= Seq::empty());
                r
            },
            Some(j) => {
                proof {
                    lemma_kv_at(ks, ls, j as int);
                }
                let ids = &self.users[j].connection_ids;
                let ghost l = ids_view(ids@);
                let ghost dom = self.conns().dom();
                assert(l == ls[j as int]);
                let mut i: usize = 0;
                assert(l.take(0) =~= Seq::<Seq<char>>::empty());
                while i < ids.len()
                    invariant
                        i <= ids@.len(),
                        l == ids_view(ids@),
                        dom == self.conns().dom(),
                        kv_wf(conn_keys(self.connections@), conn_vals(self.connections@)),
                        ids_view(r@) == registered_ids(l.take(i as int), dom),
                    decreases ids@.len() - i,
                {
                    let ghost before = r@;
                    proof {
                        assert(l.take(i + 1).drop_last() =~= l.take(i as int));
                        assert(l.take(i + 1).last() == l[i as int]);
                        assert(l[i as int] == ids@[i as int]@);
                    }
                    match self.find_conn(ids[i].as_str()) {
                        Some(q) => {
                            proof {
                                lemma_kv_at(conn_keys(self.connections@), conn_vals(self.connections@), q as int);
                            }
                            let s = ids[i].clone();
                            proof {
                                lemma_ids_push(before, s);
                            }
                            r.push(s);
                        },
                        None => {
                            proof {
                                lemma_kv_absent(conn_keys(self.connections@), conn_vals(self.connections@), l[i as int]);
                            }
                        },
                    }
                    i += 1;
                }
                assert(l.take(ids@.len() as int) =~= l);
                r
            },
        }
    }

    /// The connection stored under `connection_id`.
    pub fn get_connection(&self, connection_id: &str) -> (r: Option<&H>)
        requires
            self.wf(),
        ensures
            match r {
                Some(h) => self.conns().contains_key(connection_id@) && *h == self.conns()[connection_id@],
                None => !self.conns().contains_key(connection_id@),
            },
    {
        let ghost ks = conn_keys(self.connections@);
        let ghost vs = conn_vals(self.connections@);
        match self.find_conn(connection_id) {
            None => {
                proof {
                    lemma_kv_absent(ks, vs, connection_id@);
                }
                None
            },
            Some(i) => {
                proof {
                    lemma_kv_at(ks, vs, i as int);
                }
                Some(&self.connections[i].1)
            },
        }
    }

    /// The user `connection_id` belongs to.
    pub fn get_user_id_by_connection(&self, connection_id: &str) -> (r: Option<String>)
        requires
            self.wf(),
        ensures
            match r {
                Some(u) => self.owners().contains_key(connection_id@) && u@ == self.owners()[connection_id@],
                None => !self.owners().contains_key(connection_id@),
            },
    {
        let ghost ks = own_keys(self.connection_to_user@);
        let ghost vs = own_vals(self.connection_to_user@);
        match self.find_owner(connection_id) {
            None => {
                proof {
                    lemma_kv_absent(ks, vs, connection_id@);
                }
                None
            },
            Some(i) => {
                proof {
                    lemma_kv_at(ks, vs, i as int);
                }
                Some(self.connection_to_user[i].1.clone())
            },
        }
    }

    /// The ids of the stored connections, in the order they were stored.
    pub fn get_all_connections(&self) -> (r: Vec<String>)
        requires
            self.wf(),
        ensures
            ids_view(r@) == self.conn_order(),
            self.conn_order().to_set() == self.conns().dom(),
    {
        let ghost ks = conn_keys(self.connections@);
        let mut r: Vec<String> = Vec::new();
        let mut i: usize = 0;
        while i < self.connections.len()
            invariant
                i <= self.connections@.len(),
                ks == conn_keys(self.connections@),
                ids_view(r@) == ks.take(i as int),
            decreases self.connections@.len() - i,
        {
            let s = self.connections[i].0.clone();
            proof {
                lemma_ids_push(r@, s);
            }
            r.push(s);
            assert(ids_view(r@) =~= ks.take(i + 1));
            i += 1;
        }
        assert(ks.take(self.connections@.len() as int) =~= ks);
        assert(ks.to_set() =~= self.conns().dom());
        r
    }

    /// The known users, each once.
    pub fn get_all_users(&self) -> (r: Vec<String>)
        requires
            self.wf(),
        ensures
            ids_view(r@).no_duplicates(),
            ids_view(r@).to_set() == self.user_lists().dom(),
    {
        let ghost ks = ub_keys(self.users@);
        let mut r: Vec<String> = Vec::new();
        let mut i: usize = 0;
        while i < self.users.len()
            invariant
                i <= self.users@.len(),
                ks == ub_keys(self.users@),
                ids_view(r@) == ks.take(i as int),
            decreases self.users@.len() - i,
        {
            let s = self.users[i].user_id.clone();
            proof {
                lemma_ids_push(r@, s);
            }
            r.push(s);
            assert(ids_view(r@) =~= ks.take(i + 1));
            i += 1;
        }
        assert(ks.take(self.users@.len() as int) =~= ks);
        assert(ks.to_set() =~= self.user_lists().dom());
        r
    }

    /// Number of known users.
    pub fn get_user_count(&self) -> (n: usize)
        requires
            self.wf(),
        ensures
            n == self.user_lists().len(),
    {
        proof {
            lemma_kv_len(ub_keys(self.users@), ub_lists(self.users@));
        }
        self.users.len()
    }

    /// Number of stored connections.
    pub fn get_connection_count(&self) -> (n: usize)
        requires
            self.wf(),
        ensures
            n == self.conns().len(),
    {
        proof {
            lemma_kv_len(conn_keys(self.connections@), conn_vals(self.connections@));
        }
        self.connections.len()
    }

    /// The counters.
    pub fn get_stats(&self) -> (s: UserBasedStats)
        ensures
            s == self.spec_stats(),
    {
        self.stats
    }

    /// The connection to send a message to: the one stored under
    /// `connection_id`, else [`ErrorCode::ConnectionFailed`].
    pub fn connection_for_send(&self, connection_id: &str) -> (r: Result<&H, FlareError>)
        requires
            self.wf(),
        ensures
            match r {
                Ok(h) => self.conns().contains_key(connection_id@) && *h == self.conns()[connection_id@],
                Err(e) => !self.conns().contains_key(connection_id@) && e.code == ErrorCode::ConnectionFailed
                    && e.message@ == unknown_target_message(connection_id@),
            },
    {
        proof {
            reveal_strlit("连接不存在: ");
            reveal_strlit("");
        }
        match self.get_connection(connection_id) {
            Some(h) => Ok(h),
            None => Err(FlareError::connection_failed(concat3("连接不存在: ", connection_id, ""))),
        }
    }

    /// Counts `count` messages delivered.
    pub fn record_messages_sent(&mut self, count: u64)
        requires
            old(self).spec_stats().total_messages + count <= u64::MAX,
        ensures
            final(self).spec_stats() == (UserBasedStats {
                total_messages: (old(self).spec_stats().total_messages + count) as u64,
                ..old(self).spec_stats()
            }),
            final(self).user_lists() == old(self).user_lists(),
            final(self).activity() == old(self).activity(),
            final(self).owners() == old(self).owners(),
            final(self).conns() == old(self).conns(),
            final(self).conn_order() == old(self).conn_order(),
            final(self).spec_last_cleanup() == old(self).spec_last_cleanup(),
            final(self).spec_cleanup_interval() == old(self).spec_cleanup_interval(),
            old(self).wf() ==> final(self).wf(),
    {
        self.stats.total_messages = self.stats.total_messages + count;
    }

    /// A sweep is due at `now`: more than the interval has passed since the
    /// last one.
    pub fn should_cleanup_at(&self, now: u64) -> (r: bool)
        ensures
            r == idle_too_long(self.spec_last_cleanup(), self.spec_cleanup_interval(), now),
    {
        now > self.last_cleanup && now - self.last_cleanup > self.cleanup_interval
    }

    /// [`UserBasedManager::should_cleanup_at`] at the current time.
    pub fn should_cleanup(&self) -> (r: bool)
        ensures
            exists|now: u64| r == #[trigger] idle_too_long(self.spec_last_cleanup(), self.spec_cleanup_interval(), now),
    {
        let now = current_timestamp_ms();
        self.should_cleanup_at(now)
    }

    /// Empties the manager: no connection, user or binding is left, and
    /// the active counts are zero.
    pub fn clear_all(&mut self)
        ensures
            final(self).wf(),
            final(self).conns().is_empty(),
            final(self).user_lists().is_empty(),
            final(self).activity().is_empty(),
            final(self).owners().is_empty(),
            final(self).spec_stats() == (UserBasedStats {
                active_connections: 0,
                active_users: 0,
                ..old(self).spec_stats()
            }),
            final(self).spec_last_cleanup() == old(self).spec_last_cleanup(),
            final(self).spec_cleanup_interval() == old(self).spec_cleanup_interval(),
    {
        self.connections = Vec::new();
        self.users = Vec::new();
        self.connection_to_user = Vec::new();
        self.stats.active_connections = 0;
        self.stats.active_users = 0;
        assert(self.conns() =~= Map::empty());
        assert(self.user_lists() =~= Map::empty());
        assert(self.activity() =~= Map::empty());
        assert(self.owners() =~= Map::empty());
    }

    /// Sweeps away, at `now`, the connections reported idle longer than
    /// `timeout`; `reported` holds each connection's id and when it was
    /// last active, as the connections tell. The idle ones (in storage
    /// order) are no longer stored or bound and leave their users' lists,
    /// one after another; the active counts drop accordingly, and the
    /// sweep time is recorded when something was removed. Returns how many
    /// were removed.
    pub fn cleanup_inactive_connections_at(&mut self, timeout: u64, now: u64, reported: &Vec<(String, u64)>) -> (removed:
        usize)
        requires
            old(self).wf(),
        ensures
            final(self).wf(),
            ({
                let gone = idle_ids(old(self).conn_order(), reports_view(reported@), timeout, now);
                &&& removed == gone.len()
                &&& final(self).conns() == old(self).conns().remove_keys(gone.to_set())
                &&& final(self).owners() == old(self).owners().remove_keys(gone.to_set())
                &&& final(self).user_lists() == sweep_users(old(self).user_lists(), old(self).owners(), gone)
                &&& final(self).activity() == sweep_activity(
                    old(self).user_lists(),
                    old(self).activity(),
                    old(self).owners(),
                    gone,
                    now,
                )
                &&& final(self).spec_stats() == (UserBasedStats {
                    active_users: (old(self).spec_stats().active_users - sweep_drops(
                        old(self).user_lists(),
                        old(self).owners(),
                        gone,
                    )) as usize,
                    active_connections: (old(self).spec_stats().active_connections - gone.len()) as usize,
                    ..old(self).spec_stats()
                })
                &&& final(self).spec_last_cleanup() == if gone.len() > 0 {
                    now
                } else {
                    old(self).spec_last_cleanup()
                }
            }),
            final(self).spec_cleanup_interval() == old(self).spec_cleanup_interval(),
    {
        let ghost rv = reports_view(reported@);
        let ghost ks = conn_keys(self.connections@);
        let ghost gone = idle_ids(ks, rv, timeout, now);
        let ghost c0 = self.conns();
        let ghost o0 = self.owners();
        let ghost u0 = self.user_lists();
        let ghost a0 = self.activity();
        let mut idle: Vec<String> = Vec::new();
        let mut i: usize = 0;
        while i < self.connections.len()
            invariant
                i <= self.connections@.len(),
                ks == conn_keys(self.connections@),
                rv == reports_view(reported@),
                ids_view(idle@) == idle_ids(ks.take(i as int), rv, timeout, now),
            decreases self.connections@.len() - i,
        {
            let ghost before = idle@;
            proof {
                assert(ks.take(i + 1).drop_last() =~= ks.take(i as int));
                assert(ks.take(i + 1).last() == ks[i as int]);
            }
            let is_idle = Self::reported_idle_exec(reported, self.connections[i].0.as_str(), timeout, now);
            if is_idle {
                let s = self.connections[i].0.clone();
                proof {
                    lemma_ids_push(before, s);
                }
                idle.push(s);
            }
            i += 1;
        }
        proof {
            assert(ks.take(self.connections@.len() as int) =~= ks);
            lemma_idle_ids(ks, rv, timeout, now);
            lemma_kv_len(ks, conn_vals(self.connections@));
        }
        let ghost n0 = self.connections@.len();
        let mut count: usize = 0;
        let mut j: usize = 0;
        while j < idle.len()
            invariant
                self.wf(),
                ids_view(idle@) == gone,
                gone.no_duplicates(),
                gone.len() <= n0,
                forall|x: Seq<char>| #[trigger] gone.contains(x) ==> c0.contains_key(x),
                j <= idle@.len(),
                count == j,
                self.connections@.len() + j == n0,
                self.conns() == c0.remove_keys(gone.take(j as int).to_set()),
                self.owners() == o0.remove_keys(gone.take(j as int).to_set()),
                self.user_lists() == sweep_users(u0, o0, gone.take(j as int)),
                self.activity() == sweep_activity(u0, a0, o0, gone.take(j as int), now),
                self.stats == (UserBasedStats {
                    active_users: (old(self).stats.active_users - sweep_drops(u0, o0, gone.take(j as int))) as usize,
                    ..old(self).stats
                }),
                old(self).stats.active_users >= sweep_drops(u0, o0, gone.take(j as int)),
                old(self).stats.active_connections >= n0,
                self.last_cleanup == old(self).last_cleanup,
                self.cleanup_interval == old(self).cleanup_interval,
            decreases idle@.len() - j,
        {
            let ghost k = gone[j as int];
            let ghost pre = gone.take(j as int);
            proof {
                assert(gone.take(j + 1).drop_last() =~= pre);
                assert(gone.take(j + 1).last() == k);
                lemma_take_next(gone, j as int);
                assert(gone.take(j + 1).to_set() =~= pre.to_set().insert(k));
                assert(gone.contains(k));
                assert(ids_view(idle@)[j as int] == idle@[j as int]@);
            }
            let ghost cur_lists = self.user_lists();
            let taken = self.take_conn(idle[j].as_str());
            proof {
                assert(taken is Some);
            }
            let owner = self.take_owner(idle[j].as_str());
            match owner {
                Some(u) => {
                    let dropped = self.unlink_user(u.as_str(), idle[j].as_str(), now);
                    if dropped {
                        self.stats.active_users = self.stats.active_users - 1;
                    }
                },
                None => {},
            }
            count = count + 1;
            proof {
                assert(self.conns() =~= c0.remove_keys(gone.take(j + 1).to_set()));
                assert(self.owners() =~= o0.remove_keys(gone.take(j + 1).to_set()));
            }
            j += 1;
        }
        proof {
            assert(gone.take(idle@.len() as int) =~= gone);
        }
        if count > 0 {
            self.stats.active_connections = self.stats.active_connections - count;
            self.last_cleanup = now;
        }
        count
    }

    fn reported_idle_exec(reported: &Vec<(String, u64)>, k: &str, timeout: u64, now: u64) -> (r: bool)
        ensures
            r == reported_idle(reports_view(reported@), k@, timeout, now),
    {
        let ghost rv = reports_view(reported@);
        let mut i: usize = 0;
        while i < reported.len()
            invariant
                i <= reported@.len(),
                rv == reports_view(reported@),
                forall|q: int| 0 <= q < i ==> !(rv[q].0 == k@ && idle_too_long(rv[q].1, timeout, now)),
            decreases reported@.len() - i,
        {
            let t = reported[i].1;
            if str_eq(reported[i].0.as_str(), k) && now > t && now - t > timeout {
                proof {
                    assert(rv[i as int].0 == k@ && idle_too_long(rv[i as int].1, timeout, now));
                }
                return true;
            }
            i += 1;
        }
        false
    }
}

/// A connection added for a user is listed under that user and belongs
/// to that user.
pub proof fn lemma_added_connection_listed(users: UserIndex, owners: OwnerTable, u: Seq<char>, c: Seq<char>)
    ensures
        user_insert(users, u, c).contains_key(u),
        user_insert(users, u, c)[u].contains(c),
        owners.insert(c, u)[c] == u,
{
    if users.contains_key(u) && !users[u].contains(c) {
        assert(users[u].push(c)[users[u].len() as int] == c);
    }
    if !users.contains_key(u) {
        assert(seq![c][0] == c);
    }
}

/// A removed connection is no longer listed under the user it belonged
/// to, and belongs to nobody.
pub proof fn lemma_removed_connection_unlisted(users: UserIndex, owners: OwnerTable, c: Seq<char>)
    requires
        lists_ok(users),
        owners.contains_key(c),
    ensures
        users_after_unlink(users, owners, c).contains_key(owners[c]) ==> !users_after_unlink(users, owners, c)[owners[c]].contains(c),
        !owners.remove(c).contains_key(c),
{
    let u = owners[c];
    if users.contains_key(u) {
        lemma_list_without(users[u], c);
    }
}

/// The sweep removes exactly the stored connections reported idle too
/// long.
pub proof fn lemma_sweep_removes_exactly_idle<H>(
    conns: Map<Seq<char>, H>,
    order: Seq<Seq<char>>,
    reported: Seq<(Seq<char>, u64)>,
    timeout: u64,
    now: u64,
    k: Seq<char>,
)
    requires
        order.to_set() == conns.dom(),
    ensures
        conns.remove_keys(idle_ids(order, reported, timeout, now).to_set()).contains_key(k) <==> (conns.contains_key(k)
            && !reported_idle(reported, k, timeout, now)),
{
    lemma_idle_ids(order, reported, timeout, now);
    if conns.contains_key(k) {
        assert(order.to_set().contains(k));
    }
}

} // verus!
