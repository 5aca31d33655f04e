//! The online devices of each user, and the admission of a new device under
//! the multi-device policy: which of the user's devices it displaces.

use crate::device::{displaces, DeviceConflictStrategy, DeviceInfo, DeviceInfoView, DevicePlatform, PlatformView};
use crate::error::FlareError;
use crate::keyed::{kv_map, kv_wf, lemma_kv_absent, lemma_kv_at, lemma_kv_len, lemma_kv_push, lemma_kv_remove, lemma_kv_update};
use crate::manager::{ids_view, lemma_ids_push};
use crate::strings::str_eq;
use vstd::prelude::*;

verus! {

/// A user's devices, by connection id.
pub type DeviceTable = Map<Seq<char>, DeviceInfoView>;

/// Devices of every user, by user id.
pub type UserDeviceTable = Map<Seq<char>, DeviceTable>;

/// The devices of `user_id`, or none.
pub open spec fn devices_of(t: UserDeviceTable, user_id: Seq<char>) -> DeviceTable {
    if t.contains_key(user_id) {
        t[user_id]
    } else {
        Map::empty()
    }
}

/// The connections whose devices a new device on `platform`, connecting as
/// `connection_id`, displaces under `strategy`.
pub open spec fn displaced_by(
    strategy: DeviceConflictStrategy,
    devices: DeviceTable,
    connection_id: Seq<char>,
    platform: PlatformView,
) -> Set<Seq<char>> {
    Set::new(
        |c: Seq<char>|
            devices.contains_key(c) && c != connection_id && displaces(strategy, platform, devices[c].platform),
    )
}

/// A user's devices after a new device is admitted: the displaced ones
/// leave and the new one is recorded under its connection id.
pub open spec fn devices_after_add(
    strategy: DeviceConflictStrategy,
    devices: DeviceTable,
    connection_id: Seq<char>,
    device: DeviceInfoView,
) -> DeviceTable {
    Map::new(
        |c: Seq<char>|
            c == connection_id || (devices.contains_key(c) && !displaced_by(
                strategy,
                devices,
                connection_id,
                device.platform,
            ).contains(c)),
        |c: Seq<char>|
            if c == connection_id {
                device
            } else {
                devices[c]
            },
    )
}

/// The table after the device of `connection_id` leaves `user_id`; a user
/// left without devices is dropped.
pub open spec fn table_after_remove(t: UserDeviceTable, user_id: Seq<char>, connection_id: Seq<char>) -> UserDeviceTable {
    if t.contains_key(user_id) {
        let d = t[user_id].remove(connection_id);
        if d.is_empty() {
            t.remove(user_id)
        } else {
            t.insert(user_id, d)
        }
    } else {
        t
    }
}

/// One online device.
struct UserDevice {
    connection_id: String,
    device_info: DeviceInfo,
}

/// The online devices of one user.
struct UserDevices {
    user_id: String,
    devices: Vec<UserDevice>,
}

spec fn dev_keys(v: Seq<UserDevice>) -> Seq<Seq<char>> {
    v.map_values(|d: UserDevice| d.connection_id@)
}

spec fn dev_views(v: Seq<UserDevice>) -> Seq<DeviceInfoView> {
    v.map_values(|d: UserDevice| d.device_info@)
}

spec fn dev_table(v: Seq<UserDevice>) -> DeviceTable {
    kv_map(dev_keys(v), dev_views(v))
}

spec fn dev_wf(v: Seq<UserDevice>) -> bool {
    kv_wf(dev_keys(v), dev_views(v))
}

/// The devices of `d` that a new device keeps, among the connections in
/// `prefix`.
spec fn kept_part(
    strategy: DeviceConflictStrategy,
    d: DeviceTable,
    connection_id: Seq<char>,
    platform: PlatformView,
    prefix: Seq<Seq<char>>,
) -> DeviceTable {
    Map::new(
        |c: Seq<char>|
            prefix.contains(c) && d.contains_key(c) && c != connection_id && !displaces(strategy, platform, d[c].platform),
        |c: Seq<char>| d[c],
    )
}

/// Splits a user's devices into those a new device keeps (without any
/// entry for the new connection itself) and the connections it displaces.
fn split_devices(
    devices: &Vec<UserDevice>,
    strategy: DeviceConflictStrategy,
    connection_id: &str,
    platform: &DevicePlatform,
) -> (r: (Vec<UserDevice>, Vec<String>))
    requires
        dev_wf(devices@),
    ensures
        dev_wf(r.0@),
        !dev_keys(r.0@).contains(connection_id@),
        dev_table(r.0@) == kept_part(strategy, dev_table(devices@), connection_id@, platform@, dev_keys(devices@)),
        ids_view(r.1@).no_duplicates(),
        ids_view(r.1@).to_set() == displaced_by(strategy, dev_table(devices@), connection_id@, platform@),
{
    let ghost ks = dev_keys(devices@);
    let ghost vs = dev_views(devices@);
    let ghost d = dev_table(devices@);
    let mut kept: Vec<UserDevice> = Vec::new();
    let mut conflicts: Vec<String> = Vec::new();
    let mut i: usize = 0;
    assert(dev_table(kept@) =~= kept_part(strategy, d, connection_id@, platform@, ks.take(0)));
    assert(ids_view(conflicts@).to_set() =~= Set::empty());
    while i < devices.len()
        invariant
            ks == dev_keys(devices@),
            vs == dev_views(devices@),
            d == dev_table(devices@),
            kv_wf(ks, vs),
            i <= ks.len(),
            dev_wf(kept@),
            forall|x: Seq<char>| #[trigger] dev_keys(kept@).contains(x) ==> ks.take(i as int).contains(x) && x != connection_id@,
            dev_table(kept@) == kept_part(strategy, d, connection_id@, platform@, ks.take(i as int)),
            ids_view(conflicts@).no_duplicates(),
            forall|x: Seq<char>|
                #[trigger] ids_view(conflicts@).contains(x) <==> (ks.take(i as int).contains(x) && d.contains_key(x)
                    && x != connection_id@ && displaces(strategy, platform@, d[x].platform)),
        decreases ks.len() - i,
    {
        proof {
            lemma_kv_at(ks, vs, i as int);
        }
        let ghost c = ks[i as int];
        let ghost nt = ks.take(i + 1);
        proof {
            assert(nt =~= ks.take(i as int).push(c));
            assert(!ks.take(i as int).contains(c)) by {
                if ks.take(i as int).contains(c) {
                    let q = choose|q: int| 0 <= q < i && ks.take(i as int)[q] == c;
                    assert(ks[q] == ks[i as int]);
                }
            }
            assert forall|x: Seq<char>| #[trigger] nt.contains(x) <==> (ks.take(i as int).contains(x) || x == c) by {
                if nt.contains(x) {
                    let q = choose|q: int| 0 <= q < nt.len() && nt[q] == x;
                    if q < i {
                        assert(ks.take(i as int)[q] == x);
                    }
                }
                if ks.take(i as int).contains(x) {
                    let q = choose|q: int| 0 <= q < i && ks.take(i as int)[q] == x;
                    assert(nt[q] == x);
                }
                if x == c {
                    assert(nt[i as int] == c);
                }
            }
            assert(vs[i as int] == devices@[i as int].device_info@);
        }
        let is_self = str_eq(devices[i].connection_id.as_str(), connection_id);
        let hit = !is_self && strategy.displaces(platform, &devices[i].device_info.platform);
        let ghost okeys = dev_keys(kept@);
        let ghost oviews = dev_views(kept@);
        let ghost before = kept_part(strategy, d, connection_id@, platform@, ks.take(i as int));
        let ghost after = kept_part(strategy, d, connection_id@, platform@, nt);
        if hit {
            let ghost oc = ids_view(conflicts@);
            proof {
                lemma_ids_push(conflicts@, devices@[i as int].connection_id);
            }
            conflicts.push(devices[i].connection_id.clone());
            proof {
                assert(!oc.contains(c));
                assert(ids_view(conflicts@) == oc.push(c));
                assert forall|a: int, b: int| 0 <= a < b < oc.push(c).len() implies oc.push(c)[a] != oc.push(c)[b] by {
                    if b == oc.len() {
                        assert(oc.contains(oc[a]));
                    }
                }
                assert forall|x: Seq<char>| #[trigger] oc.push(c).contains(x) <==> (oc.contains(x) || x == c) by {
                    if oc.push(c).contains(x) {
                        let q = choose|q: int| 0 <= q < oc.push(c).len() && oc.push(c)[q] == x;
                        if q < oc.len() {
                            assert(oc[q] == x);
                        }
                    }
                    if oc.contains(x) {
                        let q = choose|q: int| 0 <= q < oc.len() && oc[q] == x;
                        assert(oc.push(c)[q] == x);
                    }
                    if x == c {
                        assert(oc.push(c)[oc.len() as int] == c);
                    }
                }
                assert(after =~= before);
            }
        } else if is_self {
            proof {
                assert(after =~= before);
            }
        } else {
            let entry = UserDevice {
                connection_id: devices[i].connection_id.clone(),
                device_info: devices[i].device_info.copy_info(),
            };
            let ghost ev = entry.device_info@;
            kept.push(entry);
            proof {
                assert(dev_keys(kept@) =~= okeys.push(c));
                assert(dev_views(kept@) =~= oviews.push(ev));
                assert(!okeys.contains(c));
                lemma_kv_push(okeys, oviews, c, ev);
                assert(after =~= before.insert(c, ev));
                assert forall|x: Seq<char>| #[trigger] dev_keys(kept@).contains(x) implies nt.contains(x) && x != connection_id@ by {
                    if x != c {
                        assert(okeys.contains(x));
                    }
                }
            }
        }
        i += 1;
    }
    proof {
        assert(ks.take(ks.len() as int) =~= ks);
        assert(ids_view(conflicts@).to_set() =~= displaced_by(strategy, d, connection_id@, platform@));
        assert(!dev_keys(kept@).contains(connection_id@));
    }
    (kept, conflicts)
}

/// The online devices of every user, with the multi-device policy.
pub struct DeviceManager {
    user_devices: Vec<UserDevices>,
    conflict_strategy: DeviceConflictStrategy,
}

impl DeviceManager {
    closed spec fn user_keys(&self) -> Seq<Seq<char>> {
        self.user_devices@.map_values(|u: UserDevices| u.user_id@)
    }

    closed spec fn user_tables(&self) -> Seq<DeviceTable> {
        self.user_devices@.map_values(|u: UserDevices| dev_table(u.devices@))
    }

    /// The online devices of every user.
    pub closed spec fn table(&self) -> UserDeviceTable {
        kv_map(self.user_keys(), self.user_tables())
    }

    /// The multi-device policy.
    pub closed spec fn strategy(&self) -> DeviceConflictStrategy {
        self.conflict_strategy
    }

    /// The order in which the devices of `user_id` are listed.
    pub closed spec fn device_order(&self, user_id: Seq<char>) -> Seq<Seq<char>> {
        if self.user_keys().contains(user_id) {
            dev_keys(self.user_devices@[self.user_keys().index_of(user_id)].devices@)
        } else {
            Seq::empty()
        }
    }

    /// Users are distinct, and so are the connections of each user.
    pub closed spec fn wf(&self) -> bool {
        &&& kv_wf(self.user_keys(), self.user_tables())
        &&& forall|j: int| 0 <= j < self.user_devices@.len() ==> #[trigger] dev_wf(self.user_devices@[j].devices@)
    }

    /// The listing order of a user's devices names each of them once.
    pub proof fn lemma_device_order(&self, user_id: Seq<char>)
        requires
            self.wf(),
        ensures
            self.device_order(user_id).no_duplicates(),
            self.device_order(user_id).to_set() == devices_of(self.table(), user_id).dom(),
    {
        if self.user_keys().contains(user_id) {
            let j = self.user_keys().index_of(user_id);
            lemma_kv_at(self.user_keys(), self.user_tables(), j);
            assert(dev_wf(self.user_devices@[j].devices@));
            lemma_kv_len(dev_keys(self.user_devices@[j].devices@), dev_views(self.user_devices@[j].devices@));
        } else {
            lemma_kv_absent(self.user_keys(), self.user_tables(), user_id);
            assert(Seq::<Seq<char>>::empty().to_set() =~= Set::empty());
            assert(devices_of(self.table(), user_id).dom() =~= Set::empty());
        }
    }

    /// No devices, with the given policy.
    pub fn new(conflict_strategy: DeviceConflictStrategy) -> (m: DeviceManager)
        ensures
            m.wf(),
            m.table().is_empty(),
            m.strategy() == conflict_strategy,
    {
        let m = DeviceManager { user_devices: Vec::new(), conflict_strategy };
        assert(m.table() =~= Map::empty());
        m
    }

    fn find_user(&self, user_id: &str) -> (r: Option<usize>)
        ensures
            match r {
                Some(j) => j < self.user_devices@.len() && self.user_keys()[j as int] == user_id@,
                None => !self.user_keys().contains(user_id@),
            },
    {
        let mut j: usize = 0;
        while j < self.user_devices.len()
            invariant
                j <= self.user_devices@.len(),
                forall|k: int| 0 <= k < j ==> self.user_keys()[k] != user_id@,
            decreases self.user_devices@.len() - j,
        {
            if str_eq(self.user_devices[j].user_id.as_str(), user_id) {
                return Some(j);
            }
            j += 1;
        }
        None
    }

    /// Admits the device of `connection_id` for `user_id`: the user's
    /// devices that it displaces under the policy leave, it is recorded,
    /// and the displaced connections are returned (each once). Never fails.
    pub fn add_device(&mut self, user_id: &str, connection_id: String, device_info: DeviceInfo) -> (r: Result<Vec<String>, FlareError>)
        requires
            old(self).wf(),
        ensures
            final(self).wf(),
            final(self).strategy() == old(self).strategy(),
            final(self).table() == old(self).table().insert(
                user_id@,
                devices_after_add(
                    old(self).strategy(),
                    devices_of(old(self).table(), user_id@),
                    connection_id@,
                    device_info@,
                ),
            ),
            r is Ok,
            ids_view(r->Ok_0@).no_duplicates(),
            ids_view(r->Ok_0@).to_set() == displaced_by(
                old(self).strategy(),
                devices_of(old(self).table(), user_id@),
                connection_id@,
                device_info@.platform,
            ),
    {
        let ghost ks = self.user_keys();
        let ghost vs = self.user_tables();
        let ghost old_devs = self.user_devices@;
        let ghost dv = device_info@;
        let ghost cid = connection_id@;
        let strategy = self.conflict_strategy;
        match self.find_user(user_id) {
            Some(j) => {
                proof {
                    lemma_kv_at(ks, vs, j as int);
                    assert(dev_wf(old_devs[j as int].devices@));
                }
                let ud = self.user_devices.remove(j);
                let ghost d = dev_table(ud.devices@);
                let (mut kept, conflicts) = split_devices(&ud.devices, strategy, connection_id.as_str(), &device_info.platform);
                let ghost okeys = dev_keys(kept@);
                let ghost oviews = dev_views(kept@);
                proof {
                    lemma_kv_push(okeys, oviews, cid, dv);
                }
                kept.push(UserDevice { connection_id, device_info });
                let ghost nd = dev_table(kept@);
                proof {
                    assert(dev_keys(kept@) =~= okeys.push(cid));
                    assert(dev_views(kept@) =~= oviews.push(dv));
                    assert(nd =~= devices_after_add(strategy, d, cid, dv)) by {
                        assert(dev_keys(ud.devices@).to_set() == d.dom()) by {
                            lemma_kv_len(dev_keys(ud.devices@), dev_views(ud.devices@));
                        }
                        assert forall|c: Seq<char>| #[trigger] d.contains_key(c) implies dev_keys(ud.devices@).contains(c) by {
                            assert(dev_keys(ud.devices@).to_set().contains(c));
                        }
                    }
                }
                self.user_devices.insert(j, UserDevices { user_id: ud.user_id, devices: kept });
                proof {
                    assert(self.user_keys() =~= ks);
                    assert(self.user_tables() =~= vs.update(j as int, nd));
                    lemma_kv_update(ks, vs, j as int, nd);
                    assert forall|k: int| 0 <= k < self.user_devices@.len() implies #[trigger] dev_wf(self.user_devices@[k].devices@) by {
                        if k != j {
                            assert(self.user_devices@[k] == old_devs[k]);
                        }
                    }
                }
                Ok(conflicts)
            },
            None => {
                proof {
                    lemma_kv_absent(ks, vs, user_id@);
                }
                let mut devices: Vec<UserDevice> = Vec::new();
                devices.push(UserDevice { connection_id, device_info });
                let ghost nd = dev_table(devices@);
                proof {
                    assert(dev_keys(devices@) =~= seq![cid]);
                    assert(dev_views(devices@) =~= seq![dv]);
                    lemma_kv_push(Seq::<Seq<char>>::empty(), Seq::<DeviceInfoView>::empty(), cid, dv);
                    assert(Seq::<Seq<char>>::empty().push(cid) =~= seq![cid]);
                    assert(Seq::<DeviceInfoView>::empty().push(dv) =~= seq![dv]);
                    assert(kv_map(Seq::<Seq<char>>::empty(), Seq::<DeviceInfoView>::empty()) =~= Map::empty());
                    assert(nd =~= devices_after_add(strategy, Map::empty(), cid, dv));
                }
                let ghost uv = user_id@;
                self.user_devices.push(UserDevices { user_id: user_id.to_owned(), devices });
                proof {
                    assert(self.user_keys() =~= ks.push(uv));
                    assert(self.user_tables() =~= vs.push(nd));
                    lemma_kv_push(ks, vs, uv, nd);
                    assert forall|k: int| 0 <= k < self.user_devices@.len() implies #[trigger] dev_wf(self.user_devices@[k].devices@) by {
                        if k < old_devs.len() {
                            assert(self.user_devices@[k] == old_devs[k]);
                        }
                    }
                }
                let conflicts: Vec<String> = Vec::new();
                assert(ids_view(conflicts@).to_set() =~= displaced_by(strategy, Map::empty(), cid, dv.platform));
                Ok(conflicts)
            },
        }
    }
}


/// Position of `connection_id` among a user's devices.
fn find_device(devices: &Vec<UserDevice>, connection_id: &str) -> (r: Option<usize>)
    ensures
        match r {
            Some(p) => p < devices@.len() && dev_keys(devices@)[p as int] == connection_id@,
            None => !dev_keys(devices@).contains(connection_id@),
        },
{
    let mut p: usize = 0;
    while p < devices.len()
        invariant
            p <= devices@.len(),
            forall|q: int| 0 <= q < p ==> dev_keys(devices@)[q] != connection_id@,
        decreases devices@.len() - p,
    {
        if str_eq(devices[p].connection_id.as_str(), connection_id) {
            return Some(p);
        }
        p += 1;
    }
    None
}

impl DeviceManager {
    /// Takes the device of `connection_id` off `user_id`'s devices; a user
    /// left without devices is dropped. Never fails.
    pub fn remove_device(&mut self, user_id: &str, connection_id: &str) -> (r: Result<(), FlareError>)
        requires
            old(self).wf(),
        ensures
            final(self).wf(),
            final(self).strategy() == old(self).strategy(),
            final(self).table() == table_after_remove(old(self).table(), user_id@, connection_id@),
            r is Ok,
    {
        let ghost ks = self.user_keys();
        let ghost vs = self.user_tables();
        let ghost old_devs = self.user_devices@;
        match self.find_user(user_id) {
            None => {
                proof {
                    lemma_kv_absent(ks, vs, user_id@);
                }
            },
            Some(j) => {
                proof {
                    lemma_kv_at(ks, vs, j as int);
                    assert(dev_wf(old_devs[j as int].devices@));
                }
                let mut ud = self.user_devices.remove(j);
                let ghost dk = dev_keys(ud.devices@);
                let ghost dvs = dev_views(ud.devices@);
                match find_device(&ud.devices, connection_id) {
                    Some(p) => {
                        proof {
                            lemma_kv_remove(dk, dvs, p as int);
                        }
                        ud.devices.remove(p);
                        assert(dev_keys(ud.devices@) =~= dk.remove(p as int));
                        assert(dev_views(ud.devices@) =~= dvs.remove(p as int));
                    },
                    None => {
                        proof {
                            lemma_kv_absent(dk, dvs, connection_id@);
                            assert(kv_map(dk, dvs).remove(connection_id@) =~= kv_map(dk, dvs));
                        }
                    },
                }
                let ghost nd = dev_table(ud.devices@);
                proof {
                    lemma_kv_len(dev_keys(ud.devices@), dev_views(ud.devices@));
                }
                if ud.devices.len() == 0 {
                    proof {
                        assert(self.user_keys() =~= ks.remove(j as int));
                        assert(self.user_tables() =~= vs.remove(j as int));
                        lemma_kv_remove(ks, vs, j as int);
                        assert(nd.dom() =~= Set::empty());
                        assert forall|k: int| 0 <= k < self.user_devices@.len() implies #[trigger] dev_wf(self.user_devices@[k].devices@) by {
                            if k < j {
                                assert(self.user_devices@[k] == old_devs[k]);
                            } else {
                                assert(self.user_devices@[k] == old_devs[k + 1]);
                            }
                        }
                    }
                } else {
                    self.user_devices.insert(j, ud);
                    proof {
                        assert(self.user_keys() =~= ks);
                        assert(self.user_tables() =~= vs.update(j as int, nd));
                        lemma_kv_update(ks, vs, j as int, nd);
                        assert(!nd.is_empty()) by {
                            assert(nd.dom().contains(dev_keys(self.user_devices@[j as int].devices@)[0]));
                        }
                        assert forall|k: int| 0 <= k < self.user_devices@.len() implies #[trigger] dev_wf(self.user_devices@[k].devices@) by {
                            if k != j {
                                assert(self.user_devices@[k] == old_devs[k]);
                            }
                        }
                    }
                }
            },
        }
        Ok(())
    }

    /// The devices of `user_id`, in listing order (none if unknown).
    pub fn get_user_devices(&self, user_id: &str) -> (r: Vec<DeviceInfo>)
        requires
            self.wf(),
        ensures
            r@.len() == self.device_order(user_id@).len(),
            forall|i: int| 0 <= i < r@.len() ==> #[trigger] r@[i]@ == devices_of(self.table(), user_id@)[self.device_order(user_id@)[i]],
    {
        let ghost ks = self.user_keys();
        let ghost vs = self.user_tables();
        let mut r: Vec<DeviceInfo> = Vec::new();
        match self.find_user(user_id) {
            None => {
                proof {
                    lemma_kv_absent(ks, vs, user_id@);
                }
            },
            Some(j) => {
                proof {
                    lemma_kv_at(ks, vs, j as int);
                    assert(dev_wf(self.user_devices@[j as int].devices@));
                }
                let devices = &self.user_devices[j].devices;
                let ghost dk = dev_keys(devices@);
                let ghost dvs = dev_views(devices@);
                let mut p: usize = 0;
                while p < devices.len()
                    invariant
                        p <= devices@.len(),
                        dk == dev_keys(devices@),
                        dvs == dev_views(devices@),
                        kv_wf(dk, dvs),
                        r@.len() == p,
                        forall|i: int| 0 <= i < p ==> #[trigger] r@[i]@ == kv_map(dk, dvs)[dk[i]],
                    decreases devices@.len() - p,
                {
                    proof {
                        lemma_kv_at(dk, dvs, p as int);
                    }
                    r.push(devices[p].device_info.copy_info());
                    p += 1;
                }
            },
        }
        r
    }

    /// The connection ids of `user_id`'s devices, in listing order.
    pub fn get_user_connections(&self, user_id: &str) -> (r: Vec<String>)
        requires
            self.wf(),
        ensures
            ids_view(r@) == self.device_order(user_id@),
    {
        let ghost ks = self.user_keys();
        let ghost vs = self.user_tables();
        let mut r: Vec<String> = Vec::new();
        match self.find_user(user_id) {
            None => {
                proof {
                    lemma_kv_absent(ks, vs, user_id@);
                }
                assert(ids_view(r@) =~= Seq::empty());
            },
            Some(j) => {
                proof {
                    lemma_kv_at(ks, vs, j as int);
                }
                let devices = &self.user_devices[j].devices;
                let mut p: usize = 0;
                while p < devices.len()
                    invariant
                        p <= devices@.len(),
                        ids_view(r@) == dev_keys(devices@).take(p as int),
                    decreases devices@.len() - p,
                {
                    proof {
                        lemma_ids_push(r@, devices@[p as int].connection_id);
                    }
                    r.push(devices[p].connection_id.clone());
                    assert(dev_keys(devices@).take(p + 1) =~= dev_keys(devices@).take(p as int).push(
                        devices@[p as int].connection_id@,
                    ));
                    p += 1;
                }
                assert(dev_keys(devices@).take(devices@.len() as int) =~= dev_keys(devices@));
            },
        }
        r
    }

    /// A connection of `user_id` whose device has id `device_id`, if any.
    pub fn get_device_connection(&self, user_id: &str, device_id: &str) -> (r: Option<String>)
        requires
            self.wf(),
        ensures
            match r {
                Some(c) => devices_of(self.table(), user_id@).contains_key(c@) && devices_of(
                    self.table(),
                    user_id@,
                )[c@].device_id == device_id@,
                None => forall|c: Seq<char>| #[trigger] devices_of(self.table(), user_id@).contains_key(c)
                    ==> devices_of(self.table(), user_id@)[c].device_id != device_id@,
            },
    {
        let ghost ks = self.user_keys();
        let ghost vs = self.user_tables();
        match self.find_user(user_id) {
            None => {
                proof {
                    lemma_kv_absent(ks, vs, user_id@);
                }
                None
            },
            Some(j) => {
                proof {
                    lemma_kv_at(ks, vs, j as int);
                    assert(dev_wf(self.user_devices@[j as int].devices@));
                }
                let devices = &self.user_devices[j].devices;
                let ghost dk = dev_keys(devices@);
                let ghost dvs = dev_views(devices@);
                assert(vs[j as int] == dev_table(self.user_devices@[j as int].devices@));
                let mut p: usize = 0;
                while p < devices.len()
                    invariant
                        p <= devices@.len(),
                        dk == dev_keys(devices@),
                        dvs == dev_views(devices@),
                        kv_wf(dk, dvs),
                        devices_of(self.table(), user_id@) == kv_map(dk, dvs),
                        forall|q: int| 0 <= q < p ==> #[trigger] dvs[q].device_id != device_id@,
                    decreases devices@.len() - p,
                {
                    proof {
                        lemma_kv_at(dk, dvs, p as int);
                    }
                    if str_eq(devices[p].device_info.device_id.as_str(), device_id) {
                        proof {
                            assert(dvs[p as int] == devices@[p as int].device_info@);
                            assert(dk[p as int] == devices@[p as int].connection_id@);
                        }
                        return Some(devices[p].connection_id.clone());
                    }
                    p += 1;
                }
                proof {
                    assert forall|c: Seq<char>| #[trigger] kv_map(dk, dvs).contains_key(c) implies kv_map(dk, dvs)[c].device_id != device_id@ by {
                        let q = choose|q: int| 0 <= q < dk.len() && dk[q] == c;
                        lemma_kv_at(dk, dvs, q);
                    }
                }
                None
            },
        }
    }

    /// Replaces the multi-device policy.
    pub fn update_strategy(&mut self, strategy: DeviceConflictStrategy)
        requires
            old(self).wf(),
        ensures
            final(self).wf(),
            final(self).table() == old(self).table(),
            final(self).strategy() == strategy,
    {
        self.conflict_strategy = strategy;
    }
}


/// Admission of a device: the new device is recorded under its connection,
/// every device the user keeps was already there unchanged, and none of
/// them is one the new device displaces.
pub proof fn lemma_admission_leaves_no_displaced(
    strategy: DeviceConflictStrategy,
    devices: DeviceTable,
    connection_id: Seq<char>,
    device: DeviceInfoView,
)
    ensures
        devices_after_add(strategy, devices, connection_id, device).contains_key(connection_id),
        devices_after_add(strategy, devices, connection_id, device)[connection_id] == device,
        forall|c: Seq<char>|
            #[trigger] devices_after_add(strategy, devices, connection_id, device).contains_key(c) && c != connection_id
                ==> devices.contains_key(c) && devices_after_add(strategy, devices, connection_id, device)[c] == devices[c]
                && !displaces(strategy, device.platform, devices[c].platform),
        !displaced_by(strategy, devices, connection_id, device.platform).contains(connection_id),
{
}

/// Under the single-device policy a user is left with the new device only.
pub proof fn lemma_single_device_admission(devices: DeviceTable, connection_id: Seq<char>, device: DeviceInfoView)
    ensures
        devices_after_add(DeviceConflictStrategy::SingleDevice, devices, connection_id, device).dom() == set![connection_id],
{
    assert(devices_after_add(DeviceConflictStrategy::SingleDevice, devices, connection_id, device).dom() =~= set![connection_id]);
}

/// Under the multiple-device policy nothing is displaced.
pub proof fn lemma_allow_multiple_keeps_all(devices: DeviceTable, connection_id: Seq<char>, device: DeviceInfoView)
    ensures
        displaced_by(DeviceConflictStrategy::AllowMultiple, devices, connection_id, device.platform).is_empty(),
        devices_after_add(DeviceConflictStrategy::AllowMultiple, devices, connection_id, device) == devices.insert(
            connection_id,
            device,
        ),
{
    assert(displaced_by(DeviceConflictStrategy::AllowMultiple, devices, connection_id, device.platform) =~= Set::empty());
    assert(devices_after_add(DeviceConflictStrategy::AllowMultiple, devices, connection_id, device) =~= devices.insert(
        connection_id,
        device,
    ));
}

/// What each strategy displaces when a user's new device on `platform`
/// connects as `connection_id`: under `PlatformExclusive`, exactly the
/// user's other devices on that same platform; under `SingleDevice`, every
/// other device of the user; under `AllowMultiple`, none.
pub proof fn lemma_displacement_by_strategy(
    devices: DeviceTable,
    connection_id: Seq<char>,
    platform: PlatformView,
    other: Seq<char>,
)
    ensures
        displaced_by(DeviceConflictStrategy::PlatformExclusive, devices, connection_id, platform).contains(other) <==> (
        devices.contains_key(other) && other != connection_id && devices[other].platform == platform),
        displaced_by(DeviceConflictStrategy::SingleDevice, devices, connection_id, platform).contains(other) <==> (
        devices.contains_key(other) && other != connection_id),
        !displaced_by(DeviceConflictStrategy::AllowMultiple, devices, connection_id, platform).contains(other),
{
}

/// Under `PlatformExclusive` a user keeps at most one device per platform:
/// once a device is admitted, it is the only one on its platform, and the
/// devices on other platforms all stay.
pub proof fn lemma_platform_exclusive_one_device_per_platform(
    devices: DeviceTable,
    connection_id: Seq<char>,
    device: DeviceInfoView,
    other: Seq<char>,
)
    ensures
        ({
            let after = devices_after_add(DeviceConflictStrategy::PlatformExclusive, devices, connection_id, device);
            &&& after.contains_key(connection_id)
            &&& after.contains_key(other) && other != connection_id ==> after[other].platform != device.platform
            &&& devices.contains_key(other) && other != connection_id && devices[other].platform != device.platform
                ==> after.contains_key(other)
                && after[other] == devices[other]
        }),
{
    let after = devices_after_add(DeviceConflictStrategy::PlatformExclusive, devices, connection_id, device);
    let d = displaced_by(DeviceConflictStrategy::PlatformExclusive, devices, connection_id, device.platform);
    assert(after.contains_key(connection_id));
    if after.contains_key(other) && other != connection_id {
        assert(devices.contains_key(other) && !d.contains(other));
        assert(after[other] == devices[other]);
    }
    if devices.contains_key(other) && other != connection_id && devices[other].platform != device.platform {
        assert(!d.contains(other));
        assert(after.contains_key(other));
    }
}

} // verus!
