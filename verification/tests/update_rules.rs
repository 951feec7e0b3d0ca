use gamepad_applet::handlers::{update, RECONNECT_SECONDS};
use gamepad_applet::messages::{Action, Message};
use gamepad_applet::model::{AppModel, ConnectedDevice, DeviceData};
use gamepad_applet::report::ErrorMessage;

fn pair(a: &str, n: &str) -> (String, String) {
    (a.to_string(), n.to_string())
}

fn loaded(app: &mut AppModel, paired: Vec<(String, String)>) {
    let data = DeviceData { connected: vec![], paired };
    let action = update(app, Message::DataLoaded(Ok(data)));
    assert!(matches!(action, Action::Idle));
}

fn seconds_left(app: &AppModel, addr: &str) -> Option<u64> {
    app.reconnecting.iter().find(|(a, _)| a == addr).map(|(_, s)| *s)
}

#[test]
fn new_model_is_empty() {
    let app = AppModel::default();
    assert!(app.popup.is_none());
    assert!(app.connected.is_empty() && app.paired.is_empty());
    assert!(app.reconnecting.is_empty() && app.paired_names.is_empty());
    assert!(app.renaming_addr.is_none() && app.renaming_value.is_empty());
    assert!(app.last_error.is_none());
}

#[test]
fn refresh_loads_when_idle() {
    let mut app = AppModel::default();
    assert!(matches!(update(&mut app, Message::Refresh), Action::LoadDevices));
}

#[test]
fn refresh_waits_while_renaming() {
    let mut app = AppModel::default();
    update(&mut app, Message::RenameStart("AA".into(), "Pad".into()));
    assert!(matches!(update(&mut app, Message::Refresh), Action::Idle));
    update(&mut app, Message::RenameCancel);
    assert!(app.renaming_addr.is_none());
    assert_eq!(app.renaming_value, "");
    assert!(matches!(update(&mut app, Message::Refresh), Action::LoadDevices));
}

#[test]
fn refresh_waits_while_reconnecting() {
    let mut app = AppModel::default();
    update(&mut app, Message::ReconnectDevice("AA".into()));
    assert!(matches!(update(&mut app, Message::Refresh), Action::Idle));
}

#[test]
fn data_loaded_replaces_lists_and_clears_error() {
    let mut app = AppModel::default();
    update(&mut app, Message::DataLoaded(Err(ErrorMessage::Text("DBus error: x".into()))));
    assert!(matches!(&app.last_error, Some(ErrorMessage::Text(t)) if t == "DBus error: x"));
    let data = DeviceData {
        connected: vec![ConnectedDevice::new("AA".into(), "Pad".into(), Some(("ps".into(), 55)))],
        paired: vec![pair("AA", "Pad"), pair("BB", "Other")],
    };
    update(&mut app, Message::DataLoaded(Ok(data)));
    assert!(app.last_error.is_none());
    assert_eq!(app.connected.len(), 1);
    assert_eq!(app.connected[0].battery, Some(55));
    assert_eq!(app.paired, vec![pair("AA", "Pad"), pair("BB", "Other")]);
}

#[test]
fn later_pair_names_win() {
    let mut app = AppModel::default();
    loaded(&mut app, vec![pair("AA", "Old"), pair("BB", "B"), pair("AA", "New")]);
    let names: Vec<_> = app.paired_names.iter().filter(|(a, _)| a == "AA").collect();
    assert_eq!(names.len(), 1);
    assert_eq!(names[0].1, "New");
    assert_eq!(app.paired_names.len(), 2);
}

#[test]
fn device_being_reconnected_stays_listed() {
    let mut app = AppModel::default();
    loaded(&mut app, vec![pair("AA", "Pad")]);
    update(&mut app, Message::ReconnectDevice("AA".into()));
    loaded(&mut app, vec![pair("BB", "Other")]);
    assert_eq!(app.paired, vec![pair("BB", "Other"), pair("AA", "AA")]);
    loaded(&mut app, vec![pair("AA", "Pad")]);
    assert_eq!(app.paired, vec![pair("AA", "Pad")]);
}

#[test]
fn reconnect_uses_remembered_name() {
    let mut app = AppModel::default();
    loaded(&mut app, vec![pair("AA", "Pad")]);
    match update(&mut app, Message::ReconnectDevice("AA".into())) {
        Action::Reconnect(a, n) => {
            assert_eq!(a, "AA");
            assert_eq!(n, "Pad");
        }
        other => panic!("unexpected {:?}", other),
    }
    assert_eq!(seconds_left(&app, "AA"), Some(RECONNECT_SECONDS));
    match update(&mut app, Message::ReconnectDevice("CC".into())) {
        Action::Reconnect(a, n) => {
            assert_eq!(a, "CC");
            assert_eq!(n, "CC");
        }
        other => panic!("unexpected {:?}", other),
    }
}

#[test]
fn reconnect_falls_back_to_paired_list() {
    let mut app = AppModel::default();
    app.paired = vec![pair("AA", "First"), pair("AA", "Second")];
    match update(&mut app, Message::ReconnectDevice("AA".into())) {
        Action::Reconnect(_, n) => assert_eq!(n, "First"),
        other => panic!("unexpected {:?}", other),
    }
}

#[test]
fn tick_counts_down_and_drops_finished() {
    let mut app = AppModel::default();
    update(&mut app, Message::ReconnectDevice("AA".into()));
    for _ in 0..3 {
        update(&mut app, Message::Tick);
    }
    assert_eq!(seconds_left(&app, "AA"), Some(RECONNECT_SECONDS - 3));
    for _ in 3..RECONNECT_SECONDS {
        update(&mut app, Message::Tick);
    }
    assert_eq!(seconds_left(&app, "AA"), Some(0));
    update(&mut app, Message::Tick);
    assert_eq!(seconds_left(&app, "AA"), None);
    assert!(app.reconnecting.is_empty());
}

#[test]
fn reconnect_result_ends_countdown_and_reloads() {
    let mut app = AppModel::default();
    update(&mut app, Message::ReconnectDevice("AA".into()));
    update(&mut app, Message::ReconnectDevice("BB".into()));
    let action = update(&mut app, Message::ReconnectResult(Ok(("AA".into(), true))));
    assert!(matches!(action, Action::LoadDevices));
    assert_eq!(seconds_left(&app, "AA"), None);
    assert_eq!(seconds_left(&app, "BB"), Some(RECONNECT_SECONDS));
    let action = update(&mut app, Message::ReconnectResult(Err(ErrorMessage::ReconnectNotFound)));
    assert!(matches!(action, Action::Idle));
    assert!(matches!(app.last_error, Some(ErrorMessage::ReconnectNotFound)));
    assert_eq!(seconds_left(&app, "BB"), Some(RECONNECT_SECONDS));
}

#[test]
fn rename_submit_trims_and_sends() {
    let mut app = AppModel::default();
    update(&mut app, Message::RenameStart("AA".into(), "Pad".into()));
    update(&mut app, Message::RenameInput("  New name \n".into()));
    match update(&mut app, Message::RenameSubmit("AA".into())) {
        Action::Rename(a, n) => {
            assert_eq!(a, "AA");
            assert_eq!(n, "New name");
        }
        other => panic!("unexpected {:?}", other),
    }
    assert!(app.renaming_addr.is_none());
    assert_eq!(app.renaming_value, "");
}

#[test]
fn rename_submit_refuses_blank_name() {
    let mut app = AppModel::default();
    update(&mut app, Message::RenameStart("AA".into(), "Pad".into()));
    update(&mut app, Message::RenameInput(" \t ".into()));
    assert!(matches!(update(&mut app, Message::RenameSubmit("AA".into())), Action::Idle));
    assert!(matches!(app.last_error, Some(ErrorMessage::RenameEmpty)));
    assert_eq!(app.renaming_addr.as_deref(), Some("AA"));
    assert_eq!(app.renaming_value, " \t ");
}

#[test]
fn requests_and_replies() {
    let mut app = AppModel::default();
    assert!(matches!(update(&mut app, Message::DisconnectDevice("AA".into())), Action::Disconnect(a) if a == "AA"));
    assert!(matches!(update(&mut app, Message::RemoveDevice("AA".into())), Action::Remove(a) if a == "AA"));
    assert!(matches!(update(&mut app, Message::DisconnectResult(Ok(()))), Action::LoadDevices));
    assert!(matches!(update(&mut app, Message::RemoveResult(Ok(()))), Action::LoadDevices));
    assert!(matches!(update(&mut app, Message::RenameResult(Ok(()))), Action::LoadDevices));
    let e = ErrorMessage::Text("Device not found".into());
    assert!(matches!(update(&mut app, Message::RemoveResult(Err(e))), Action::Idle));
    assert!(matches!(&app.last_error, Some(ErrorMessage::Text(t)) if t == "Device not found"));
}

#[test]
fn popup_toggles_and_closes() {
    let mut app = AppModel::default();
    assert!(matches!(update(&mut app, Message::TogglePopup(7)), Action::OpenPopup(7)));
    assert_eq!(app.popup, Some(7));
    assert!(matches!(update(&mut app, Message::TogglePopup(8)), Action::ClosePopup(7)));
    assert_eq!(app.popup, None);
    update(&mut app, Message::TogglePopup(9));
    update(&mut app, Message::PopupClosed(3));
    assert_eq!(app.popup, Some(9));
    update(&mut app, Message::PopupClosed(9));
    assert_eq!(app.popup, None);
}

#[test]
fn remembered_names_keep_first_position_and_last_name() {
    let mut app = AppModel::default();
    loaded(&mut app, vec![pair("AA", "Old"), pair("BB", "B"), pair("AA", "New")]);
    assert_eq!(app.paired_names, vec![pair("AA", "New"), pair("BB", "B")]);
}

#[test]
fn countdowns_never_exceed_start() {
    let mut app = AppModel::default();
    update(&mut app, Message::ReconnectDevice("AA".into()));
    update(&mut app, Message::Tick);
    update(&mut app, Message::ReconnectDevice("AA".into()));
    update(&mut app, Message::ReconnectDevice("BB".into()));
    assert!(app.reconnecting.iter().all(|(_, s)| *s <= RECONNECT_SECONDS));
    assert_eq!(seconds_left(&app, "AA"), Some(RECONNECT_SECONDS));
    assert_eq!(app.reconnecting.len(), 2);
}

#[test]
fn message_clone_copies_payload() {
    let m = Message::ReconnectResult(Ok(("AA".into(), true)));
    assert!(matches!(m.clone(), Message::ReconnectResult(Ok((a, true))) if a == "AA"));
    let data = DeviceData {
        connected: vec![ConnectedDevice::new("AA".into(), "Pad".into(), Some(("ps".into(), 9)))],
        paired: vec![pair("AA", "Pad")],
    };
    match Message::DataLoaded(Ok(data)).clone() {
        Message::DataLoaded(Ok(d)) => {
            assert_eq!(d.connected.len(), 1);
            assert_eq!(d.connected[0].battery, Some(9));
            assert_eq!(d.paired, vec![pair("AA", "Pad")]);
        }
        other => panic!("unexpected {:?}", other),
    }
    assert!(matches!(Message::RenameInput("x".into()).clone(), Message::RenameInput(v) if v == "x"));
}
