use gamepad_applet::bluez::{
    default_adapter_path, find_device_path, find_paired_device_path, list_connected_devices,
    list_devices_by, list_paired_devices, DeviceFilter, DeviceProperties, ManagedObject,
};
use gamepad_applet::handlers::update;
use gamepad_applet::messages::Message;
use gamepad_applet::model::AppModel;
use gamepad_applet::view::{connected_rows, device_label, paired_rows, PairedRow};
use gamepad_applet::model::ConnectedDevice;

fn dev(path: &str, addr: Option<&str>, alias: Option<&str>, name: Option<&str>, paired: Option<bool>, connected: Option<bool>) -> ManagedObject<String> {
    ManagedObject {
        path: path.to_string(),
        device: Some(DeviceProperties {
            address: addr.map(|s| s.to_string()),
            alias: alias.map(|s| s.to_string()),
            name: name.map(|s| s.to_string()),
            paired,
            connected,
        }),
        adapter: false,
    }
}

fn adapter(path: &str) -> ManagedObject<String> {
    ManagedObject { path: path.to_string(), device: None, adapter: true }
}

fn objects() -> Vec<ManagedObject<String>> {
    vec![
        adapter("/org/bluez/hci0"),
        dev("/d1", Some("AA:BB:CC:00:11:22"), Some("Pad"), Some("Wireless Controller"), Some(true), Some(true)),
        dev("/d2", Some("aa:bb:cc:00:11:22"), None, Some("Twin"), Some(false), Some(false)),
        dev("/d3", None, None, None, Some(true), None),
        dev("/d4", Some("11:22:33:44:55:66"), None, Some("Mouse"), None, Some(true)),
    ]
}

#[test]
fn find_device_path_is_case_insensitive_and_first() {
    assert_eq!(find_device_path(objects(), "aa:bb:cc:00:11:22"), Some("/d1".to_string()));
    assert_eq!(find_device_path(objects(), "11:22:33:44:55:66"), Some("/d4".to_string()));
    assert_eq!(find_device_path(objects(), "00:00:00:00:00:00"), None);
    assert_eq!(find_device_path(objects(), ""), Some("/d3".to_string()));
}

#[test]
fn rename_target_must_be_paired() {
    let mut objs = objects();
    objs.swap(1, 2);
    assert_eq!(find_paired_device_path(objs, "AA:BB:CC:00:11:22"), Some("/d1".to_string()));
    assert_eq!(find_paired_device_path(objects(), "11:22:33:44:55:66"), None);
}

#[test]
fn adapter_is_first_adapter_object() {
    assert_eq!(default_adapter_path(objects()), Some("/org/bluez/hci0".to_string()));
    assert_eq!(default_adapter_path(vec![dev("/d", None, None, None, None, None)]), None);
}

#[test]
fn listings_use_fallback_names() {
    let objs = objects();
    assert_eq!(
        list_connected_devices(&objs),
        vec![
            ("AA:BB:CC:00:11:22".to_string(), "Pad".to_string()),
            ("11:22:33:44:55:66".to_string(), "Mouse".to_string())
        ]
    );
    assert_eq!(
        list_paired_devices(&objs),
        vec![
            ("AA:BB:CC:00:11:22".to_string(), "Pad".to_string()),
            ("<unknown>".to_string(), "<unnamed>".to_string())
        ]
    );
    assert_eq!(list_devices_by(&objs, DeviceFilter::Paired).len(), 2);
}

#[test]
fn labels_and_rows() {
    assert_eq!(device_label("Pad", "AA:BB"), "Pad (AA:BB)");
    let devices = vec![ConnectedDevice::new("AA".into(), "Pad".into(), None)];
    let rows = connected_rows(&devices);
    assert_eq!(rows.len(), 1);
    assert_eq!(rows[0].label, "Pad (AA)");
    assert_eq!(rows[0].battery, None);

    let mut app = AppModel::default();
    app.paired = vec![("AA".into(), "Pad".into()), ("BB".into(), "Other".into()), ("CC".into(), "Third".into())];
    update(&mut app, Message::ReconnectDevice("BB".into()));
    update(&mut app, Message::RenameStart("CC".into(), "Third".into()));
    let rows = paired_rows(&app);
    assert!(matches!(&rows[0], PairedRow::Idle { addr, name, label } if addr == "AA" && name == "Pad" && label == "Pad (AA)"));
    assert!(matches!(&rows[1], PairedRow::Reconnecting { addr, seconds: 60, label } if addr == "BB" && label == "Other (BB)"));
    assert!(matches!(&rows[2], PairedRow::Editing { addr } if addr == "CC"));
}

#[test]
fn find_device_path_same_for_any_ascii_case() {
    for a in ["aa:bb:cc:00:11:22", "AA:BB:CC:00:11:22", "Aa:bB:Cc:00:11:22"] {
        assert_eq!(find_device_path(objects(), a), Some("/d1".to_string()));
    }
}

#[test]
fn rows_do_not_change_between_calls() {
    let mut app = AppModel::default();
    app.paired = vec![("AA".into(), "Pad".into())];
    let first: Vec<String> = paired_rows(&app).iter().map(|r| format!("{:?}", r)).collect();
    let second: Vec<String> = paired_rows(&app).iter().map(|r| format!("{:?}", r)).collect();
    assert_eq!(first, second);
}
