//! Heartbeat tracking of connections (handles of type `T`): connections
//! whose last activity is older than the configured timeout are taken out
//! at each check, for the caller to close; times in milliseconds.

use crate::config::HeartbeatConfig;
use crate::keyed::{kv_map, kv_wf, lemma_kv_absent, lemma_kv_at, lemma_kv_len, lemma_kv_push, lemma_kv_remove, lemma_kv_update, lemma_push_contains, lemma_take_next};
use crate::manager::{ids_view, lemma_ids_push};
use crate::stats::HeartbeatStats;
use crate::strings::str_eq;
use crate::user_based::{idle_ids, reported_idle, reports_view};
use crate::utils::current_timestamp_ms;
use vstd::prelude::*;

verus! {

/// The ids of a list of (id, connection) entries, in order.
pub open spec fn entry_ids<T>(v: Seq<(String, T)>) -> Seq<Seq<char>> {
    v.map_values(|e: (String, T)| e.0@)
}

/// The ids of `ks`, in order, not reported idle too long.
pub open spec fn quiet_ids(ks: Seq<Seq<char>>, reported: Seq<(Seq<char>, u64)>, timeout: u64, now: u64) -> Seq<Seq<char>>
    decreases ks.len(),
{
    if ks.len() == 0 {
        ks
    } else if !reported_idle(reported, ks.last(), timeout, now) {
        quiet_ids(ks.drop_last(), reported, timeout, now).push(ks.last())
    } else {
        quiet_ids(ks.drop_last(), reported, timeout, now)
    }
}

proof fn lemma_quiet_ids(ks: Seq<Seq<char>>, reported: Seq<(Seq<char>, u64)>, timeout: u64, now: u64)
    ensures
        forall|x: Seq<char>|
            #[trigger] quiet_ids(ks, reported, timeout, now).contains(x) <==> (ks.contains(x) && !reported_idle(
                reported,
                x,
                timeout,
                now,
            )),
        ks.no_duplicates() ==> quiet_ids(ks, reported, timeout, now).no_duplicates(),
    decreases ks.len(),
{
    if ks.len() > 0 {
        let pre = ks.drop_last();
        let x0 = ks.last();
        lemma_quiet_ids(pre, reported, timeout, now);
        let r0 = quiet_ids(pre, reported, timeout, now);
        assert(ks =~= pre.push(x0));
        lemma_push_contains(pre, x0);
        if ks.no_duplicates() {
            assert(pre.no_duplicates()) by {
                assert forall|a: int, b: int| 0 <= a < pre.len() && 0 <= b < pre.len() && a != b implies pre[a] != pre[b] by {
                    assert(ks[a] == pre[a] && ks[b] == pre[b]);
                }
            }
        }
        if !reported_idle(reported, x0, timeout, now) {
            let r = r0.push(x0);
            lemma_push_contains(r0, x0);
            if ks.no_duplicates() {
                lemma_take_next(ks, ks.len() - 1);
                assert(ks.take(ks.len() - 1) =~= pre);
                assert(!r0.contains(x0));
                assert(r.no_duplicates());
            }
        }
    }
}

spec fn hb_vals<T>(v: Seq<(String, T)>) -> Seq<T> {
    v.map_values(|e: (String, T)| e.1)
}

/// Connections under heartbeat watch, with the configuration and the time
/// of the last check.
pub struct HeartbeatManager<T> {
    config: HeartbeatConfig,
    connections: Vec<(String, T)>,
    last_check: u64,
}

impl<T> HeartbeatManager<T> {
    /// The watched connections, by id.
    pub closed spec fn conns(&self) -> Map<Seq<char>, T> {
        kv_map(entry_ids(self.connections@), hb_vals(self.connections@))
    }

    /// The connection ids in the order they were added.
    pub closed spec fn conn_order(&self) -> Seq<Seq<char>> {
        entry_ids(self.connections@)
    }

    /// The configuration.
    pub closed spec fn spec_config(&self) -> HeartbeatConfig {
        self.config
    }

    /// When connections were last checked.
    pub closed spec fn spec_last_check(&self) -> u64 {
        self.last_check
    }

    /// Each connection is watched once.
    pub closed spec fn wf(&self) -> bool {
        kv_wf(entry_ids(self.connections@), hb_vals(self.connections@))
    }

    /// Watches nothing yet; created (and last checked) at `now`.
    pub fn new_at(config: HeartbeatConfig, now: u64) -> (m: Self)
        ensures
            m.wf(),
            m.conns().is_empty(),
            m.spec_config() == config,
            m.spec_last_check() == now,
    {
        let m = HeartbeatManager { config, connections: Vec::new(), last_check: now };
        assert(m.conns() =~= Map::empty());
        m
    }

    /// [`HeartbeatManager::new_at`], created now.
    pub fn new(config: HeartbeatConfig) -> (m: Self)
        ensures
            m.wf(),
            m.conns().is_empty(),
            m.spec_config() == config,
    {
        let now = current_timestamp_ms();
        Self::new_at(config, now)
    }

    fn find(&self, id: &str) -> (r: Option<usize>)
        ensures
            match r {
                Some(i) => i < self.connections@.len() && entry_ids(self.connections@)[i as int] == id@,
                None => !entry_ids(self.connections@).contains(id@),
            },
    {
        let mut i: usize = 0;
        while i < self.connections.len()
            invariant
                i <= self.connections@.len(),
                forall|j: int| 0 <= j < i ==> entry_ids(self.connections@)[j] != id@,
            decreases self.connections@.len() - i,
        {
            if str_eq(self.connections[i].0.as_str(), id) {
                return Some(i);
            }
            i += 1;
        }
        None
    }

    /// Watches `connection` under `connection_id` (replacing one there).
    pub fn add_connection(&mut self, connection_id: String, connection: T)
        requires
            old(self).wf(),
        ensures
            final(self).wf(),
            final(self).conns() == old(self).conns().insert(connection_id@, connection),
            final(self).spec_config() == old(self).spec_config(),
            final(self).spec_last_check() == old(self).spec_last_check(),
    {
        let ghost ks = entry_ids(self.connections@);
        let ghost vs = hb_vals(self.connections@);
        let ghost kv = connection_id@;
        let ghost hv = connection;
        match self.find(connection_id.as_str()) {
            Some(i) => {
                self.connections.set(i, (connection_id, connection));
                proof {
                    assert(entry_ids(self.connections@) =~= ks);
                    assert(hb_vals(self.connections@) =~= vs.update(i as int, hv));
                    lemma_kv_update(ks, vs, i as int, hv);
                }
            },
            None => {
                self.connections.push((connection_id, connection));
                proof {
                    assert(entry_ids(self.connections@) =~= ks.push(kv));
                    assert(hb_vals(self.connections@) =~= vs.push(hv));
                    lemma_kv_push(ks, vs, kv, hv);
                }
            },
        }
    }

    /// Stops watching `connection_id`; tells whether it was watched.
    pub fn remove_connection(&mut self, connection_id: &str) -> (removed: bool)
        requires
            old(self).wf(),
        ensures
            final(self).wf(),
            removed == old(self).conns().contains_key(connection_id@),
            final(self).conns() == old(self).conns().remove(connection_id@),
            final(self).spec_config() == old(self).spec_config(),
            final(self).spec_last_check() == old(self).spec_last_check(),
    {
        let ghost ks = entry_ids(self.connections@);
        let ghost vs = hb_vals(self.connections@);
        match self.find(connection_id) {
            None => {
                proof {
                    lemma_kv_absent(ks, vs, connection_id@);
                    assert(kv_map(ks, vs).remove(connection_id@) =~= kv_map(ks, vs));
                }
                false
            },
            Some(i) => {
                proof {
                    lemma_kv_at(ks, vs, i as int);
                    lemma_kv_remove(ks, vs, i as int);
                }
                let _ = self.connections.remove(i);
                proof {
                    assert(entry_ids(self.connections@) =~= ks.remove(i as int));
                    assert(hb_vals(self.connections@) =~= vs.remove(i as int));
                }
                true
            },
        }
    }

    /// The watched connection under `connection_id`.
    pub fn get_connection(&self, connection_id: &str) -> (r: Option<&T>)
        requires
            self.wf(),
        ensures
            match r {
                Some(h) => self.conns().contains_key(connection_id@) && *h == self.conns()[connection_id@],
                None => !self.conns().contains_key(connection_id@),
            },
    {
        let ghost ks = entry_ids(self.connections@);
        let ghost vs = hb_vals(self.connections@);
        match self.find(connection_id) {
            None => {
                proof {
                    lemma_kv_absent(ks, vs, connection_id@);
                }
                None
            },
            Some(i) => {
                proof {
                    lemma_kv_at(ks, vs, i as int);
                }
                Some(&self.connections[i].1)
            },
        }
    }

    /// The ids of the watched connections, in the order they were added.
    pub fn get_all_connections(&self) -> (r: Vec<String>)
        requires
            self.wf(),
        ensures
            ids_view(r@) == self.conn_order(),
            self.conn_order().to_set() == self.conns().dom(),
    {
        let ghost ks = entry_ids(self.connections@);
        let mut r: Vec<String> = Vec::new();
        let mut i: usize = 0;
        while i < self.connections.len()
            invariant
                i <= self.connections@.len(),
                ks == entry_ids(self.connections@),
                ids_view(r@) == ks.take(i as int),
            decreases self.connections@.len() - i,
        {
            let s = self.connections[i].0.clone();
            proof {
                lemma_ids_push(r@, s);
            }
            r.push(s);
            assert(ids_view(r@) =~= ks.take(i + 1));
            i += 1;
        }
        assert(ks.take(self.connections@.len() as int) =~= ks);
        assert(ks.to_set() =~= self.conns().dom());
        r
    }

    /// The check at `now`, with `reported` holding each connection's id and
    /// when it was last active (as the connections tell). Without automatic
    /// cleanup nothing happens. Otherwise the connections reported silent
    /// longer than the timeout stop being watched and are handed back (in
    /// the order they were added) for the caller to close, and the check
    /// time is recorded.
    pub fn check_heartbeat_at(&mut self, now: u64, reported: &Vec<(String, u64)>) -> (expired: Vec<(String, T)>)
        requires
            old(self).wf(),
        ensures
            final(self).wf(),
            final(self).spec_config() == old(self).spec_config(),
            !old(self).spec_config().enable_auto_cleanup ==> expired@.len() == 0 && final(self).conns() == old(
                self,
            ).conns() && final(self).spec_last_check() == old(self).spec_last_check(),
            old(self).spec_config().enable_auto_cleanup ==> {
                let gone = idle_ids(
                    old(self).conn_order(),
                    reports_view(reported@),
                    old(self).spec_config().connection_timeout,
                    now,
                );
                &&& entry_ids(expired@) == gone
                &&& forall|i: int| 0 <= i < expired@.len() ==> #[trigger] expired@[i].1 == old(self).conns()[expired@[i].0@]
                &&& final(self).conns() == old(self).conns().remove_keys(gone.to_set())
                &&& final(self).spec_last_check() == now
            },
    {
        let mut expired: Vec<(String, T)> = Vec::new();
        if !self.config.enable_auto_cleanup {
            return expired;
        }
        let ghost rv = reports_view(reported@);
        let ghost ks = entry_ids(self.connections@);
        let ghost vs = hb_vals(self.connections@);
        let ghost c0 = self.conns();
        let timeout = self.config.connection_timeout;
        let mut kept: Vec<(String, T)> = Vec::new();
        let mut pending: Vec<(String, T)> = Vec::new();
        std::mem::swap(&mut pending, &mut self.connections);
        let mut i: usize = 0;
        let ghost all = pending@;
        let n0: usize = pending.len();
        proof {
            assert(ks.take(0) =~= Seq::<Seq<char>>::empty());
            assert(entry_ids(kept@) =~= Seq::<Seq<char>>::empty());
            assert(all.skip(0) =~= all);
            assert(ks.to_set() =~= c0.dom());
        }
        while pending.len() > 0
            invariant
                all.len() == ks.len(),
                all.len() == n0,
                ks == entry_ids(all),
                vs == hb_vals(all),
                kv_wf(ks, vs),
                c0 == kv_map(ks, vs),
                rv == reports_view(reported@),
                i + pending@.len() == all.len(),
                pending@ == all.skip(i as int),
                entry_ids(expired@) == idle_ids(ks.take(i as int), rv, timeout, now),
                forall|q: int| 0 <= q < expired@.len() ==> #[trigger] expired@[q].1 == c0[expired@[q].0@],
                forall|q: int| 0 <= q < expired@.len() ==> ks.take(i as int).contains(#[trigger] expired@[q].0@),
                entry_ids(kept@) == quiet_ids(ks.take(i as int), rv, timeout, now),
                forall|q: int| 0 <= q < kept@.len() ==> #[trigger] kept@[q].1 == c0[kept@[q].0@],
            decreases pending@.len(),
        {
            let (id, h) = pending.remove(0);
            proof {
                assert(all.skip(i as int)[0] == all[i as int]);
                assert(pending@ =~= all.skip(i + 1));
                assert(ks.take(i + 1).drop_last() =~= ks.take(i as int));
                assert(ks.take(i + 1).last() == ks[i as int]);
                assert(ks.take(i + 1) =~= ks.take(i as int).push(ks[i as int]));
                lemma_kv_at(ks, vs, i as int);
                assert(id@ == ks[i as int] && h == vs[i as int]);
            }
            let idle = reported_idle_in(reported, id.as_str(), timeout, now);
            let ghost e0 = expired@;
            let ghost k0 = kept@;
            if idle {
                expired.push((id, h));
                proof {
                    assert(entry_ids(expired@) =~= entry_ids(e0).push(ks[i as int]));
                    assert forall|q: int| 0 <= q < expired@.len() implies ks.take(i + 1).contains(#[trigger] expired@[q].0@) by {
                        if q < e0.len() {
                            assert(expired@[q] == e0[q]);
                            assert(ks.take(i as int).contains(e0[q].0@));
                            let w = choose|w: int| 0 <= w < i && ks.take(i as int)[w] == e0[q].0@;
                            assert(ks.take(i + 1)[w] == e0[q].0@);
                        } else {
                            assert(ks.take(i + 1)[i as int] == ks[i as int]);
                        }
                    }
                }
            } else {
                kept.push((id, h));
                proof {
                    assert(entry_ids(kept@) =~= entry_ids(k0).push(ks[i as int]));
                    assert forall|q: int| 0 <= q < expired@.len() implies ks.take(i + 1).contains(#[trigger] expired@[q].0@) by {
                        let w = choose|w: int| 0 <= w < i && ks.take(i as int)[w] == expired@[q].0@;
                        assert(ks.take(i + 1)[w] == expired@[q].0@);
                    }
                }
            }
            i += 1;
        }
        proof {
            assert(ks.take(all.len() as int) =~= ks);
        }
        self.connections = kept;
        self.last_check = now;
        proof {
            let kk = entry_ids(self.connections@);
            let gone = idle_ids(ks, rv, timeout, now);
            lemma_quiet_ids(ks, rv, timeout, now);
            assert(kk.no_duplicates());
            assert(hb_vals(self.connections@).len() == kk.len());
            assert forall|k: Seq<char>| #[trigger] self.conns().contains_key(k) <==> c0.remove_keys(gone.to_set()).contains_key(k) by {
                crate::user_based::lemma_sweep_removes_exactly_idle(c0, ks, rv, timeout, now, k);
                if c0.contains_key(k) {
                    assert(ks.to_set().contains(k));
                }
            }
            assert forall|k: Seq<char>| #[trigger] self.conns().contains_key(k) implies self.conns()[k] == c0[k] by {
                let q = kk.index_of(k);
                lemma_kv_at(kk, hb_vals(self.connections@), q);
                assert(hb_vals(self.connections@)[q] == self.connections@[q].1);
                assert(kk[q] == self.connections@[q].0@);
            }
            assert(self.conns() =~= c0.remove_keys(gone.to_set()));
        }
        expired
    }

    /// [`HeartbeatManager::check_heartbeat_at`] at the current time.
    pub fn check_heartbeat(&mut self, reported: &Vec<(String, u64)>) -> (expired: Vec<(String, T)>)
        requires
            old(self).wf(),
        ensures
            final(self).wf(),
            final(self).spec_config() == old(self).spec_config(),
            !old(self).spec_config().enable_auto_cleanup ==> expired@.len() == 0 && final(self).conns() == old(
                self,
            ).conns(),
            old(self).spec_config().enable_auto_cleanup ==> exists|now: u64|
                #[trigger] idle_ids(old(self).conn_order(), reports_view(reported@), old(self).spec_config().connection_timeout, now)
                    == entry_ids(expired@) && final(self).conns() == old(self).conns().remove_keys(
                    entry_ids(expired@).to_set(),
                ),
    {
        let now = current_timestamp_ms();
        self.check_heartbeat_at(now, reported)
    }

    /// The counters at `now`: how many are watched, when they were last
    /// checked and when the next check is due.
    pub fn get_stats(&self) -> (s: HeartbeatStats)
        requires
            self.wf(),
            self.spec_last_check() + self.spec_config().check_interval <= u64::MAX,
        ensures
            s.total_connections == self.conns().len(),
            s.last_check_time == self.spec_last_check(),
            s.next_check_time == self.spec_last_check() + self.spec_config().check_interval,
    {
        proof {
            lemma_kv_len(entry_ids(self.connections@), hb_vals(self.connections@));
        }
        HeartbeatStats {
            total_connections: self.connections.len(),
            last_check_time: self.last_check,
            next_check_time: self.last_check + self.config.check_interval,
        }
    }
}

/// Whether some report in `reported` says `k` has been idle longer than
/// `timeout` at `now`.
pub fn reported_idle_in(reported: &Vec<(String, u64)>, k: &str, timeout: u64, now: u64) -> (r: bool)
    ensures
        r == reported_idle(reports_view(reported@), k@, timeout, now),
{
    let ghost rv = reports_view(reported@);
    let mut i: usize = 0;
    while i < reported.len()
        invariant
            i <= reported@.len(),
            rv == reports_view(reported@),
            forall|q: int| 0 <= q < i ==> !(rv[q].0 == k@ && crate::user_based::idle_too_long(rv[q].1, timeout, now)),
        decreases reported@.len() - i,
    {
        let t = reported[i].1;
        if str_eq(reported[i].0.as_str(), k) && now > t && now - t > timeout {
            proof {
                assert(rv[i as int].0 == k@ && crate::user_based::idle_too_long(rv[i as int].1, timeout, now));
            }
            return true;
        }
        i += 1;
    }
    false
}

} // verus!
