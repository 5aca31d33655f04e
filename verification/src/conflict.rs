//! Device conflicts: when a user's new device displaces older ones, the
//! older connections are told why (a KICKED frame for the caller to send),
//! forgotten by the device manager and unregistered from the connection
//! manager.

use crate::builder::MessageParser;
use crate::device::{platform_label, DeviceInfo, DevicePlatform, PlatformView};
use crate::device_manager::{devices_after_add, devices_of, displaced_by, DeviceManager};
use crate::error::FlareError;
use crate::manager::{ids_view, ConnectionManager};
use crate::connection::ConnectionInfoView;
use crate::protocol::{
    frame_system_command, frame_with_system_command, kicked, kicked_metadata, meta_insert, metadata_insert,
    metadata_view, EncryptionAlgorithm, Frame, Metadata, Reliability, SystemCommandType,
};
use crate::registry::{user_remove_opt, ConnTable, UserIndex};
use crate::strings::concat3;
use crate::keyed::lemma_take_next;
use vstd::prelude::*;
use vstd::utf8::encode_utf8;

verus! {

/// The connections a new device displaced.
#[derive(Debug)]
pub struct DeviceConflictResult {
    pub conflict_connections: Vec<String>,
}

/// A KICKED frame to deliver to a displaced connection, with the
/// connection's handle and the parser of its negotiated encoding.
pub struct KickNotice<H> {
    pub connection_id: String,
    pub handle: H,
    pub frame: Frame,
    pub parser: MessageParser,
}

/// The text telling a displaced client why it is signed out.
pub open spec fn conflict_reason(user_id: Seq<char>, platform: PlatformView) -> Seq<char> {
    "设备冲突：同一用户 ("@ + user_id + ") 的同一平台 ("@ + platform_label(platform)
        + ") 已有其他设备在线，当前设备将被踢下线"@
}

/// The facts a KICKED frame for a device conflict carries.
pub open spec fn conflict_kick_metadata(platform: PlatformView, new_device_id: Seq<char>) -> Seq<(Seq<char>, Seq<u8>)> {
    meta_insert(
        meta_insert(
            meta_insert(Seq::empty(), "reason"@, encode_utf8("device_conflict"@)),
            "platform"@,
            encode_utf8(platform_label(platform)),
        ),
        "new_device_id"@,
        encode_utf8(new_device_id),
    )
}

/// `f` is the KICKED frame sent on a device conflict.
pub open spec fn is_conflict_kick(f: Frame, user_id: Seq<char>, platform: PlatformView, new_device_id: Seq<char>) -> bool {
    &&& f.reliability == Reliability::AtLeastOnce
    &&& frame_system_command(f) is Some
    &&& frame_system_command(f)->0.command_type == SystemCommandType::Kicked
    &&& metadata_view(frame_system_command(f)->0.metadata@) == kicked_metadata(
        conflict_reason(user_id, platform),
        conflict_kick_metadata(platform, new_device_id),
    )
}

/// The parser a connection's frames are encoded with (never encrypted).
pub open spec fn parser_of(info: ConnectionInfoView) -> MessageParser {
    MessageParser {
        format: info.serialization_format,
        compression: info.compression,
        encryption: EncryptionAlgorithm::Plaintext,
    }
}

/// The ids of `ids` that are in `dom`, in order.
pub open spec fn registered_only(ids: Seq<Seq<char>>, dom: Set<Seq<char>>) -> Seq<Seq<char>>
    decreases ids.len(),
{
    if ids.len() == 0 {
        ids
    } else {
        let r = registered_only(ids.drop_last(), dom);
        if dom.contains(ids.last()) {
            r.push(ids.last())
        } else {
            r
        }
    }
}

/// The connection ids of notices.
pub open spec fn notice_ids<H>(v: Seq<KickNotice<H>>) -> Seq<Seq<char>> {
    v.map_values(|k: KickNotice<H>| k.connection_id@)
}

/// The user index after the connections `ids` are unregistered one after
/// another: each id registered in `conns` leaves the list of its user, and
/// a list left empty leaves the index.
pub open spec fn users_without_conns(users: UserIndex, conns: ConnTable, ids: Seq<Seq<char>>) -> UserIndex
    decreases ids.len(),
{
    if ids.len() == 0 {
        users
    } else {
        let rest = users_without_conns(users, conns, ids.drop_last());
        let c = ids.last();
        if conns.contains_key(c) {
            user_remove_opt(rest, conns[c].user_id, c)
        } else {
            rest
        }
    }
}

/// The KICKED frame telling a client of `user_id` that a device on
/// `platform` (with id `new_device_id`) displaced it.
pub fn device_conflict_kick(user_id: &str, platform: &DevicePlatform, new_device_id: &str) -> (f: Frame)
    ensures
        is_conflict_kick(f, user_id@, platform@, new_device_id@),
{
    let label = platform.label();
    let mut reason = concat3("设备冲突：同一用户 (", user_id, ") 的同一平台 (");
    reason.append(label.as_str());
    reason.append(") 已有其他设备在线，当前设备将被踢下线");
    let mut metadata: Metadata = Vec::new();
    assert(metadata_view(metadata@) =~= Seq::empty());
    metadata_insert(&mut metadata, String::from_str("reason"), "device_conflict".as_bytes_vec());
    metadata_insert(&mut metadata, String::from_str("platform"), label.as_str().as_bytes_vec());
    metadata_insert(&mut metadata, String::from_str("new_device_id"), new_device_id.as_bytes_vec());
    let cmd = kicked(reason, Some(metadata));
    frame_with_system_command(cmd, Reliability::AtLeastOnce)
}

/// Admits the device of a new connection and handles the connections it
/// displaces. Without a device manager nothing is checked. With one, the
/// device is added (see [`DeviceManager::add_device`]); then each displaced
/// connection still registered is unregistered from `manager`, forgotten by
/// the device manager, and a [`KickNotice`] for it is appended to `outbox`
/// for the caller to deliver. The displaced connections are returned.
/// Never fails.
pub fn handle_device_conflict<H>(
    device_manager: &mut Option<DeviceManager>,
    user_id: &str,
    connection_id: &str,
    platform: &DevicePlatform,
    device_info: &DeviceInfo,
    manager: &mut ConnectionManager<H>,
    outbox: &mut Vec<KickNotice<H>>,
) -> (r: Result<DeviceConflictResult, FlareError>)
    requires
        old(manager).wf(),
        (*old(device_manager)) is Some ==> (*old(device_manager))->0.wf(),
    ensures
        r is Ok,
        final(manager).wf(),
        final(manager).spec_send_timeout() == old(manager).spec_send_timeout(),
        final(manager).spec_fanout_concurrency() == old(manager).spec_fanout_concurrency(),
        final(manager).spec_write_queue_capacity() == old(manager).spec_write_queue_capacity(),
        (*old(device_manager)) is None ==> {
            &&& r->Ok_0.conflict_connections@.len() == 0
            &&& *final(device_manager) == *old(device_manager)
            &&& *final(manager) == *old(manager)
            &&& final(outbox)@ == old(outbox)@
        },
        (*old(device_manager)) is Some ==> {
            let dm = (*old(device_manager))->0;
            let before = devices_of(dm.table(), user_id@);
            let displaced = displaced_by(dm.strategy(), before, connection_id@, device_info@.platform);
            let conflicts = ids_view(r->Ok_0.conflict_connections@);
            &&& conflicts.no_duplicates()
            &&& conflicts.to_set() == displaced
            &&& (*final(device_manager)) is Some
            &&& (*final(device_manager))->0.wf()
            &&& (*final(device_manager))->0.strategy() == dm.strategy()
            &&& (*final(device_manager))->0.table() == dm.table().insert(
                user_id@,
                devices_after_add(dm.strategy(), before, connection_id@, device_info@),
            )
            &&& final(manager).conns() == old(manager).conns().remove_keys(displaced)
            &&& final(manager).handles() == old(manager).handles().remove_keys(displaced)
            &&& final(manager).users() == users_without_conns(old(manager).users(), old(manager).conns(), conflicts)
            &&& final(outbox)@.subrange(0, old(outbox)@.len() as int) == old(outbox)@
            &&& notice_ids(final(outbox)@.skip(old(outbox)@.len() as int)) == registered_only(
                conflicts,
                old(manager).conns().dom(),
            )
            &&& forall|k: int|
                old(outbox)@.len() <= k < final(outbox)@.len() ==> {
                    let n = #[trigger] final(outbox)@[k];
                    &&& old(manager).conns().contains_key(n.connection_id@)
                    &&& n.handle == old(manager).handles()[n.connection_id@]
                    &&& n.parser == parser_of(old(manager).conns()[n.connection_id@])
                    &&& is_conflict_kick(n.frame, user_id@, platform@, device_info@.device_id)
                }
        },
{
    let taken = device_manager.take();
    match taken {
        None => {
            let conflicts: Vec<String> = Vec::new();
            Ok(DeviceConflictResult { conflict_connections: conflicts })
        },
        Some(mut dm) => {
            let ghost dm0 = dm;
            let ghost old_conns = manager.conns();
            let ghost old_handles = manager.handles();
            let ghost old_users = manager.users();
            let ghost old_outbox = outbox@;
            let ghost ol = outbox@.len();
            let added = dm.add_device(user_id, connection_id.to_owned(), device_info.copy_info());
            let conflicts = match added {
                Ok(c) => c,
                Err(_) => Vec::new(),
            };
            let ghost ids = ids_view(conflicts@);
            let ghost displaced = ids.to_set();
            let ghost t1 = dm.table();
            let ghost after = t1[user_id@];
            proof {
                assert(after.contains_key(connection_id@));
                assert(manager.conns() =~= old_conns.remove_keys(ids.take(0).to_set()));
                assert(manager.handles() =~= old_handles.remove_keys(ids.take(0).to_set()));
                assert(ids.take(0).len() == 0);
                assert(outbox@.skip(ol as int) =~= Seq::empty());
                assert(registered_only(ids.take(0), old_conns.dom()) =~= Seq::empty());
            }
            let mut i: usize = 0;
            while i < conflicts.len()
                invariant
                    i <= conflicts@.len(),
                    ids == ids_view(conflicts@),
                    ids.no_duplicates(),
                    displaced == ids.to_set(),
                    forall|c: Seq<char>| #[trigger] displaced.contains(c) ==> c != connection_id@ && !after.contains_key(c),
                    after.contains_key(connection_id@),
                    t1.contains_key(user_id@),
                    after == t1[user_id@],
                    dm.wf(),
                    dm.table() == t1,
                    dm.strategy() == dm0.strategy(),
                    manager.wf(),
                    manager.spec_send_timeout() == old(manager).spec_send_timeout(),
                    manager.spec_fanout_concurrency() == old(manager).spec_fanout_concurrency(),
                    manager.spec_write_queue_capacity() == old(manager).spec_write_queue_capacity(),
                    manager.conns() == old_conns.remove_keys(ids.take(i as int).to_set()),
                    manager.handles() == old_handles.remove_keys(ids.take(i as int).to_set()),
                    manager.users() == users_without_conns(old_users, old_conns, ids.take(i as int)),
                    ol <= outbox@.len(),
                    outbox@.subrange(0, ol as int) == old_outbox,
                    notice_ids(outbox@.skip(ol as int)) == registered_only(ids.take(i as int), old_conns.dom()),
                    forall|k: int|
                        ol <= k < outbox@.len() ==> {
                            let n = #[trigger] outbox@[k];
                            &&& old_conns.contains_key(n.connection_id@)
                            &&& n.handle == old_handles[n.connection_id@]
                            &&& n.parser == parser_of(old_conns[n.connection_id@])
                            &&& is_conflict_kick(n.frame, user_id@, platform@, device_info@.device_id)
                        },
                decreases conflicts@.len() - i,
            {
                let ghost c = ids[i as int];
                let ghost pre = ids.take(i as int);
                let ghost nt = ids.take(i + 1);
                proof {
                    assert(nt =~= pre.push(c));
                    lemma_take_next(ids, i as int);
                    assert(nt.to_set() =~= pre.to_set().insert(c));
                    assert(displaced.contains(c));
                    assert(nt.drop_last() =~= pre);
                }
                let cid = &conflicts[i];
                if !crate::strings::str_eq(cid.as_str(), connection_id) {
                    let ghost cur = manager.conns();
                    let ghost curh = manager.handles();
                    proof {
                        manager.lemma_ids();
                    }
                    match manager.take_connection(cid.as_str()) {
                        Some((handle, info)) => {
                            proof {
                                assert(old_conns.contains_key(c) && !pre.to_set().contains(c));
                                assert(curh[c] == old_handles[c]);
                                assert(cur[c] == old_conns[c]);
                            }
                            let ghost hv = handle;
                            let ghost iv = info@;
                            let frame = device_conflict_kick(user_id, platform, device_info.device_id.as_str());
                            let parser = MessageParser::new(info.serialization_format, info.compression, EncryptionAlgorithm::Plaintext);
                            let ghost ob = outbox@;
                            outbox.push(KickNotice { connection_id: cid.clone(), handle, frame, parser });
                            let _ = dm.remove_device(user_id, cid.as_str());
                            proof {
                                assert(after.remove(c) =~= after);
                                assert(!after.is_empty()) by {
                                    assert(after.dom().contains(connection_id@));
                                }
                                assert(t1.insert(user_id@, after) =~= t1);
                                assert(outbox@.subrange(0, ol as int) =~= ob.subrange(0, ol as int));
                                assert(outbox@.skip(ol as int) =~= ob.skip(ol as int).push(outbox@[ob.len() as int]));
                                assert(notice_ids(outbox@.skip(ol as int)) =~= notice_ids(ob.skip(ol as int)).push(c));
                                assert(manager.conns() =~= old_conns.remove_keys(nt.to_set()));
                                assert(manager.handles() =~= old_handles.remove_keys(nt.to_set()));
                                assert forall|k: int| ol <= k < outbox@.len() implies {
                                    let n = #[trigger] outbox@[k];
                                    &&& old_conns.contains_key(n.connection_id@)
                                    &&& n.handle == old_handles[n.connection_id@]
                                    &&& n.parser == parser_of(old_conns[n.connection_id@])
                                    &&& is_conflict_kick(n.frame, user_id@, platform@, device_info@.device_id)
                                } by {
                                    if k < ob.len() {
                                        assert(outbox@[k] == ob[k]);
                                    } else {
                                        assert(outbox@[k].connection_id@ == c);
                                        assert(outbox@[k].handle == hv);
                                        assert(iv == old_conns[c]);
                                    }
                                }
                            }
                        },
                        None => {
                            proof {
                                manager.lemma_ids();
                                assert(!old_conns.contains_key(c));
                                assert(manager.conns() =~= old_conns.remove_keys(nt.to_set()));
                                assert(manager.handles() =~= old_handles.remove_keys(nt.to_set()));
                            }
                        },
                    }
                }
                i += 1;
            }
            proof {
                assert(ids.take(conflicts@.len() as int) =~= ids);
            }
            *device_manager = Some(dm);
            Ok(DeviceConflictResult { conflict_connections: conflicts })
        },
    }
}

} // verus!
