use bar_modules::bluetooth::{
    get_all_devices, get_controllers, icon_for_class, poll_start, poll_step, BluetoothMod,
    Controller, Device, PollAction, PollEvent, PollState, RawAdapter, RawDevice,
};
use bar_modules::registry::Message;
use bar_modules::registry::Module;

const HEADSET: &str = "\u{f02cb}";
const POWERED: &str = "\u{f293}";
const UNPOWERED: &str = "\u{f294}";

fn raw(class: Option<&str>, connected: bool, alias: &str) -> RawDevice {
    RawDevice {
        icon_class: class.map(|c| c.to_string()),
        connected,
        alias: alias.to_string(),
    }
}

fn device(icon: &str, name: &str) -> Device {
    Device { icon: icon.to_string(), name: name.to_string() }
}

fn module_with(controllers: Vec<Controller>) -> BluetoothMod {
    let mut m = BluetoothMod::default();
    m.set_controllers(controllers);
    m
}

#[test]
fn icon_table_lookup() {
    assert_eq!(icon_for_class(&Some("audio-card".to_string())), "\u{f04c3}");
    assert_eq!(icon_for_class(&Some("audio-input-microphone".to_string())), "\u{f130}");
    assert_eq!(icon_for_class(&Some("audio-headphones".to_string())), HEADSET);
    assert_eq!(icon_for_class(&Some("audio-headset".to_string())), HEADSET);
    assert_eq!(icon_for_class(&Some("battery".to_string())), "\u{f0080}");
    assert_eq!(icon_for_class(&Some("camera-photo".to_string())), "\u{f0edb}");
    assert_eq!(icon_for_class(&Some("computer".to_string())), "\u{f109}");
    assert_eq!(icon_for_class(&Some("input-keyboard".to_string())), "\u{f030c}");
    assert_eq!(icon_for_class(&Some("input-mouse".to_string())), "\u{f037d}");
    assert_eq!(icon_for_class(&Some("input-gaming".to_string())), "\u{f02b4}");
    assert_eq!(icon_for_class(&Some("phone".to_string())), "\u{f03f2}");
}

#[test]
fn icon_for_missing_and_unknown_class() {
    assert_eq!(icon_for_class(&None), "\u{f294}");
    assert_eq!(icon_for_class(&Some("None".to_string())), "\u{f294}");
    assert_eq!(icon_for_class(&Some("printer".to_string())), "\u{f293}");
    assert_eq!(icon_for_class(&Some(String::new())), "\u{f293}");
}

#[test]
fn devices_with_same_icon_and_name_collapse() {
    let devices = vec![
        raw(Some("audio-headset"), true, "Headset"),
        raw(Some("audio-headphones"), true, "Headset"),
        raw(Some("input-mouse"), true, "Mouse"),
    ];
    let r = get_all_devices(&devices);
    assert_eq!(r, vec![device(HEADSET, "Headset"), device("\u{f037d}", "Mouse")]);
}

#[test]
fn disconnected_devices_are_left_out() {
    let devices = vec![
        raw(Some("phone"), false, "Phone"),
        raw(None, true, "Thing"),
        raw(Some("phone"), false, "Other phone"),
    ];
    assert_eq!(get_all_devices(&devices), vec![device(UNPOWERED, "Thing")]);
    assert_eq!(get_all_devices(&vec![]), vec![]);
}

#[test]
fn same_snapshot_gives_same_controllers() {
    let snapshot = vec![
        RawAdapter { is_powered: true, devices: vec![raw(Some("audio-card"), true, "Speaker")] },
        RawAdapter { is_powered: false, devices: vec![raw(Some("phone"), true, "Phone")] },
    ];
    let a = get_controllers(&snapshot);
    let b = get_controllers(&snapshot);
    assert_eq!(a.len(), 2);
    for (x, y) in a.iter().zip(b.iter()) {
        assert_eq!(x.is_powered, y.is_powered);
        assert_eq!(x.connected_devices, y.connected_devices);
    }
    assert!(a[0].is_powered);
    assert!(!a[1].is_powered);
    assert_eq!(a[0].connected_devices, vec![device("\u{f04c3}", "Speaker")]);
    assert_eq!(a[1].connected_devices, vec![device("\u{f03f2}", "Phone")]);
}

#[test]
fn default_module_shows_unpowered_icon() {
    let m = BluetoothMod::default();
    assert!(m.controllers().is_empty());
    assert_eq!(m.icon(), UNPOWERED);
    assert_eq!(m.view(), UNPOWERED);
    assert_eq!(m.name(), "bluetooth");
    assert!(m.required_listeners().is_empty());
}

#[test]
fn one_device_shows_icon_and_name() {
    let m = module_with(vec![Controller {
        is_powered: true,
        connected_devices: vec![device(HEADSET, "Headset")],
    }]);
    assert_eq!(m.view_text(), "\u{f02cb} Headset");
}

#[test]
fn several_devices_show_icons_only() {
    let m = module_with(vec![
        Controller {
            is_powered: true,
            connected_devices: vec![device(HEADSET, "Headset"), device("\u{f037d}", "Mouse")],
        },
        Controller {
            is_powered: true,
            connected_devices: vec![device(HEADSET, "Headset"), device("\u{f030c}", "Keys")],
        },
    ]);
    assert_eq!(m.connected_devices().len(), 3);
    assert_eq!(m.view_text(), "\u{f02cb}\u{f037d}\u{f030c}");
}

#[test]
fn same_device_on_two_controllers_counts_once() {
    let m = module_with(vec![
        Controller { is_powered: false, connected_devices: vec![device(HEADSET, "Headset")] },
        Controller { is_powered: true, connected_devices: vec![device(HEADSET, "Headset")] },
    ]);
    assert_eq!(m.connected_devices(), vec![device(HEADSET, "Headset")]);
    assert_eq!(m.view_text(), "\u{f02cb} Headset");
}

#[test]
fn no_devices_shows_power_state() {
    let powered = module_with(vec![
        Controller { is_powered: false, connected_devices: vec![] },
        Controller { is_powered: true, connected_devices: vec![] },
    ]);
    assert_eq!(powered.icon(), POWERED);
    assert_eq!(powered.view_text(), POWERED);
    let unpowered = module_with(vec![Controller { is_powered: false, connected_devices: vec![] }]);
    assert_eq!(unpowered.view_text(), UNPOWERED);
}

#[test]
fn device_comparison_and_copy() {
    let a = device(HEADSET, "Headset");
    assert!(a.same_as(&a.duplicate()));
    assert!(!a.same_as(&device(HEADSET, "Other")));
    assert!(!a.same_as(&device(POWERED, "Headset")));
}

#[test]
fn poll_cycle_sends_snapshot_then_sleeps() {
    let (state, action) = poll_start();
    assert_eq!(state, PollState::Idle);
    assert!(matches!(action, PollAction::OpenSession));
    let (state, action) = poll_step(state, PollEvent::SessionOpened);
    assert_eq!(state, PollState::Polling);
    assert!(matches!(action, Some(PollAction::Poll)));
    let snapshot = vec![RawAdapter {
        is_powered: true,
        devices: vec![raw(Some("audio-headset"), true, "Headset")],
    }];
    let (state, action) = poll_step(state, PollEvent::Polled(snapshot));
    assert_eq!(state, PollState::Waiting);
    match action {
        Some(PollAction::Send(Message::UpdateBluetooth(cs))) => {
            assert_eq!(cs.len(), 1);
            assert!(cs[0].is_powered);
            assert_eq!(cs[0].connected_devices, vec![device(HEADSET, "Headset")]);
        }
        other => panic!("unexpected action {:?}", other),
    }
    let (state, action) = poll_step(state, PollEvent::Sent);
    assert_eq!(state, PollState::Waiting);
    assert!(matches!(action, Some(PollAction::Sleep(1))));
    let (state, action) = poll_step(state, PollEvent::Woke);
    assert_eq!(state, PollState::Polling);
    assert!(matches!(action, Some(PollAction::Poll)));
}

#[test]
fn poll_failures_end_the_subscription() {
    let (state, action) = poll_step(PollState::Idle, PollEvent::SessionFailed);
    assert_eq!(state, PollState::Stopped);
    assert!(matches!(action, Some(PollAction::Stop)));
    let (state, _) = poll_step(PollState::Polling, PollEvent::PollFailed);
    assert_eq!(state, PollState::Stopped);
    let (state, _) = poll_step(PollState::Waiting, PollEvent::SendFailed);
    assert_eq!(state, PollState::Stopped);
}

#[test]
fn unexpected_poll_event_changes_nothing() {
    let (state, action) = poll_step(PollState::Stopped, PollEvent::Woke);
    assert_eq!(state, PollState::Stopped);
    assert!(action.is_none());
    let (state, action) = poll_step(PollState::Idle, PollEvent::Sent);
    assert_eq!(state, PollState::Idle);
    assert!(action.is_none());
}
