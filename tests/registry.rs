use bar_modules::action::{Action, ClickEvent, CommandAction, MouseButton, OnClickAction};
use bar_modules::bluetooth::{get_controllers, BluetoothMod, Controller, Device, RawAdapter, RawDevice};
use bar_modules::registry::{
    register_modules, ListenerKey, Message, Module, ModuleEntry, ModuleKind, Registry,
};

fn stub_bus(is_powered: bool, devices: Vec<RawDevice>) -> Vec<RawAdapter> {
    vec![RawAdapter { is_powered, devices }]
}

fn headset() -> RawDevice {
    RawDevice {
        icon_class: Some("audio-headset".to_string()),
        connected: true,
        alias: "Headset".to_string(),
    }
}

fn poll_once(registry: &mut Registry, snapshot: &Vec<RawAdapter>) {
    let r = registry.dispatch(Message::UpdateBluetooth(get_controllers(snapshot)));
    assert!(r.is_none());
}

fn shown(registry: &Registry) -> String {
    registry.get_module::<BluetoothMod>().unwrap().view()
}

#[test]
fn get_after_register_yields_default() {
    let mut registry = Registry::new();
    assert!(registry.get_module::<BluetoothMod>().is_none());
    registry.register_module::<BluetoothMod>();
    let m = registry.get_module::<BluetoothMod>().unwrap();
    assert!(m.controllers().is_empty());
    assert!(m.active());
    assert_eq!(m.view(), BluetoothMod::default().view());
    assert!(matches!(registry.get_entry(ModuleKind::Bluetooth), Some(ModuleEntry::Bluetooth(_))));
}

#[test]
fn registering_twice_keeps_existing_state() {
    let mut registry = Registry::new();
    register_modules(&mut registry);
    poll_once(&mut registry, &stub_bus(true, vec![headset()]));
    registry.register_module::<BluetoothMod>();
    assert_eq!(shown(&registry), "\u{f02cb} Headset");
}

#[test]
fn listener_is_activated_once() {
    let mut registry = Registry::new();
    registry.activate_listener(ListenerKey(7));
    registry.activate_listener(ListenerKey(3));
    registry.activate_listener(ListenerKey(7));
    assert_eq!(registry.active_listeners(), &vec![ListenerKey(7), ListenerKey(3)]);
    register_modules(&mut registry);
    registry.activate_required();
    assert_eq!(registry.active_listeners(), &vec![ListenerKey(7), ListenerKey(3)]);
}

#[test]
fn messages_apply_in_order() {
    let mut registry = Registry::new();
    register_modules(&mut registry);
    let first = vec![Controller {
        is_powered: true,
        connected_devices: vec![Device { icon: "a".to_string(), name: "A".to_string() }],
    }];
    let second = vec![Controller { is_powered: false, connected_devices: vec![] }];
    registry.dispatch(Message::UpdateBluetooth(first));
    assert_eq!(shown(&registry), "a A");
    registry.dispatch(Message::UpdateBluetooth(second));
    assert_eq!(shown(&registry), "\u{f294}");
}

#[test]
fn update_without_module_changes_nothing() {
    let mut registry = Registry::new();
    let r = registry.dispatch(Message::UpdateBluetooth(vec![]));
    assert!(r.is_none());
    assert!(registry.get_module::<BluetoothMod>().is_none());
}

#[test]
fn one_connected_headset_is_shown_by_name() {
    let mut registry = Registry::new();
    registry.register_module::<BluetoothMod>();
    poll_once(&mut registry, &stub_bus(true, vec![headset()]));
    assert_eq!(shown(&registry), "\u{f02cb} Headset");
}

#[test]
fn no_connected_device_shows_power_glyph() {
    let mut registry = Registry::new();
    registry.register_module::<BluetoothMod>();
    poll_once(&mut registry, &stub_bus(true, vec![]));
    assert_eq!(shown(&registry), "\u{f293}");
    poll_once(&mut registry, &stub_bus(false, vec![]));
    assert_eq!(shown(&registry), "\u{f294}");
}

#[test]
fn command_action_becomes_command_message() {
    let action = CommandAction::new("notify-send hi".to_string());
    let mut registry = Registry::new();
    let r = registry.dispatch(action.as_message());
    assert_eq!(r, Some("notify-send hi".to_string()));
}

#[test]
fn click_picks_binding_of_released_button() {
    let bindings = OnClickAction {
        left: Some(CommandAction::new("left".to_string())),
        center: None,
        right: Some(CommandAction::new("right".to_string())),
    };
    let cmd = |e: ClickEvent| match bindings.event(e).map(|a| a.as_message()) {
        Some(Message::Command(c)) => Some(c),
        _ => None,
    };
    assert_eq!(cmd(ClickEvent::ButtonReleased(MouseButton::Left)), Some("left".to_string()));
    assert_eq!(cmd(ClickEvent::ButtonReleased(MouseButton::Right)), Some("right".to_string()));
    assert_eq!(cmd(ClickEvent::ButtonReleased(MouseButton::Middle)), None);
    assert_eq!(cmd(ClickEvent::ButtonReleased(MouseButton::Other)), None);
    assert_eq!(cmd(ClickEvent::Other), None);
    assert!(OnClickAction::default().event(ClickEvent::ButtonReleased(MouseButton::Left)).is_none());
}
