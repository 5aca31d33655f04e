use flare_core::conflict::{device_conflict_kick, handle_device_conflict, KickNotice};
use flare_core::device::{DeviceConflictStrategy, DeviceInfo, DevicePlatform};
use flare_core::device_manager::DeviceManager;
use flare_core::manager::ConnectionManager;
use flare_core::protocol::{CommandKind, Reliability, SystemCommandType};

fn dev(id: &str, p: DevicePlatform) -> DeviceInfo {
    DeviceInfo::new(id.to_string(), p)
}

#[test]
fn device_conflict_evicts_old_connection_from_connection_manager() {
    let mut manager: ConnectionManager<u32> = ConnectionManager::new();
    let mut device_mgr = Some(DeviceManager::new(DeviceConflictStrategy::PlatformExclusive));

    manager.add_connection("old-conn".to_string(), 1, Some("user1".to_string()), true).unwrap();
    device_mgr
        .as_mut()
        .unwrap()
        .add_device("user1", "old-conn".to_string(), dev("dev-a", DevicePlatform::Web))
        .unwrap();

    manager.add_connection("new-conn".to_string(), 2, Some("user1".to_string()), true).unwrap();

    let mut outbox: Vec<KickNotice<u32>> = Vec::new();
    let result = handle_device_conflict(
        &mut device_mgr,
        "user1",
        "new-conn",
        &DevicePlatform::Web,
        &dev("dev-b", DevicePlatform::Web),
        &mut manager,
        &mut outbox,
    )
    .unwrap();

    assert_eq!(result.conflict_connections, vec!["old-conn".to_string()]);

    let user_conns = manager.get_user_connections("user1");
    assert!(!user_conns.contains(&"old-conn".to_string()), "old connection still listed: {:?}", user_conns);
    assert_eq!(user_conns, vec!["new-conn".to_string()]);
    assert!(manager.get_connection("old-conn").is_none(), "old connection snapshot still present");

    assert_eq!(outbox.len(), 1);
    assert_eq!(outbox[0].connection_id, "old-conn");
    assert_eq!(outbox[0].handle, 1);
}

#[test]
fn platform_exclusive_keeps_other_platforms() {
    let mut m = DeviceManager::new(DeviceConflictStrategy::PlatformExclusive);
    assert!(m.add_device("u", "c1".to_string(), dev("d1", DevicePlatform::IOS)).unwrap().is_empty());
    assert!(m.add_device("u", "c2".to_string(), dev("d2", DevicePlatform::Android)).unwrap().is_empty());
    let kicked = m.add_device("u", "c3".to_string(), dev("d3", DevicePlatform::IOS)).unwrap();
    assert_eq!(kicked, vec!["c1"]);
    let mut conns = m.get_user_connections("u");
    conns.sort();
    assert_eq!(conns, vec!["c2", "c3"]);
    assert_eq!(m.get_device_connection("u", "d3"), Some("c3".to_string()));
    assert_eq!(m.get_device_connection("u", "d1"), None);
}

#[test]
fn single_device_keeps_only_the_newest() {
    let mut m = DeviceManager::new(DeviceConflictStrategy::SingleDevice);
    m.add_device("u", "a".to_string(), dev("1", DevicePlatform::Web)).unwrap();
    m.add_device("u", "b".to_string(), dev("2", DevicePlatform::Linux)).unwrap();
    let mut kicked = m.add_device("u", "c".to_string(), dev("3", DevicePlatform::MacOS)).unwrap();
    kicked.sort();
    assert_eq!(kicked, vec!["b"]);
    assert_eq!(m.get_user_connections("u"), vec!["c"]);
    let devices = m.get_user_devices("u");
    assert_eq!(devices.len(), 1);
    assert_eq!(devices[0].device_id, "3");
}

#[test]
fn allow_multiple_displaces_nothing_and_readding_replaces() {
    let mut m = DeviceManager::new(DeviceConflictStrategy::AllowMultiple);
    m.add_device("u", "a".to_string(), dev("1", DevicePlatform::Web)).unwrap();
    assert!(m.add_device("u", "b".to_string(), dev("2", DevicePlatform::Web)).unwrap().is_empty());
    assert!(m.add_device("u", "a".to_string(), dev("9", DevicePlatform::Web)).unwrap().is_empty());
    assert_eq!(m.get_user_devices("u").len(), 2);
    assert_eq!(m.get_device_connection("u", "9"), Some("a".to_string()));
}

#[test]
fn removing_last_device_forgets_the_user() {
    let mut m = DeviceManager::new(DeviceConflictStrategy::AllowMultiple);
    m.add_device("u", "a".to_string(), dev("1", DevicePlatform::Web)).unwrap();
    m.remove_device("u", "missing").unwrap();
    assert_eq!(m.get_user_connections("u"), vec!["a"]);
    m.remove_device("u", "a").unwrap();
    assert!(m.get_user_connections("u").is_empty());
    assert!(m.get_user_devices("u").is_empty());
    m.update_strategy(DeviceConflictStrategy::SingleDevice);
}

#[test]
fn no_device_manager_means_no_conflicts() {
    let mut manager: ConnectionManager<u32> = ConnectionManager::new();
    manager.add_connection("c".to_string(), 1, Some("u".to_string()), false).unwrap();
    let mut none: Option<DeviceManager> = None;
    let mut outbox: Vec<KickNotice<u32>> = Vec::new();
    let result = handle_device_conflict(
        &mut none,
        "u",
        "d",
        &DevicePlatform::Web,
        &dev("x", DevicePlatform::Web),
        &mut manager,
        &mut outbox,
    )
    .unwrap();
    assert!(result.conflict_connections.is_empty());
    assert!(outbox.is_empty());
    assert_eq!(manager.connection_count(), 1);
}

#[test]
fn kick_frame_carries_reason_and_device() {
    let f = device_conflict_kick("user1", &DevicePlatform::Other("Tv".to_string()), "dev-b");
    assert_eq!(f.reliability, Reliability::AtLeastOnce);
    let cmd = match f.command.unwrap().kind.unwrap() {
        CommandKind::System(c) => c,
        _ => panic!("not a system command"),
    };
    assert_eq!(cmd.command_type, SystemCommandType::Kicked);
    let get = |k: &str| cmd.metadata.iter().find(|(key, _)| key == k).map(|(_, v)| v.clone());
    assert_eq!(get("reason"), Some(b"device_conflict".to_vec()));
    assert_eq!(get("platform"), Some(b"Other(\"Tv\")".to_vec()));
    assert_eq!(get("new_device_id"), Some(b"dev-b".to_vec()));
    let message = String::from_utf8(get("message").unwrap()).unwrap();
    assert!(message.contains("user1"));
    assert_eq!(
        message,
        "设备冲突：同一用户 (user1) 的同一平台 (Other(\"Tv\")) 已有其他设备在线，当前设备将被踢下线"
    );
}

#[test]
fn platform_names_parse_case_insensitively() {
    assert_eq!(DevicePlatform::from_str("IoS"), DevicePlatform::IOS);
    assert_eq!(DevicePlatform::from_str("macos"), DevicePlatform::MacOS);
    assert_eq!(DevicePlatform::from_str("Plan9"), DevicePlatform::Other("Plan9".to_string()));
    assert_eq!(DevicePlatform::Web.label(), "Web");
}
