use serde_json::Value;
use std::collections::HashMap;
use streamduck::button::Button;
use streamduck::device::{
    button_down, button_up, clear_button, copy_config, reset_stack, set_brightness, set_button,
    DeviceConfig, DeviceProfile, DeviceThreadCommunication, Kind, LoopStep, SDCore, SDCoreEvent,
    SDGlobalEvent,
};
use streamduck::panel::{panel_to_raw, Panel, RawButtonPanel};

fn layout(keys: &[u8]) -> RawButtonPanel {
    let mut buttons = HashMap::new();
    for k in keys {
        let mut b = Button::new();
        b.insert_component("key", Value::from(*k));
        buttons.insert(*k, b);
    }
    Panel { display_name: "Root".to_string(), data: Value::Null, buttons }
}

fn config(serial: &str) -> DeviceConfig {
    DeviceConfig {
        vid: 4057,
        pid: 96,
        serial: serial.to_string(),
        brightness: 50,
        layout: layout(&[0, 2]),
        plugin_data: "{}".to_string(),
    }
}

fn profile(serial: Option<&str>) -> DeviceProfile {
    DeviceProfile {
        serial: serial.map(|s| s.to_string()),
        image_size: (72, 72),
        kind: Kind::Mk2,
        key_count: 15,
    }
}

#[test]
fn blank_core_is_closed_and_has_no_worker() {
    let mut core = SDCore::blank(config("CFG1"));
    assert!(core.is_closed());
    assert!(core.handles.is_none());
    assert_eq!(core.serial_number, "CFG1");
    assert_eq!(core.serial_number(), "CFG1");
    assert_eq!(core.image_size, (0, 0));
    assert_eq!(core.kind, Kind::Original);
    assert_eq!(core.key_count, 0);
    assert_eq!(core.pool_rate, 0);
    assert_eq!(core.current_stack.len(), 1);
    assert!(core.buttons.panel(core.current_stack.active()).unwrap().buttons.is_empty());
    core.close();
    assert!(core.is_closed());
    assert!(core.handles.is_none());
    assert_eq!(core.socket_events.len(), 1);
}

#[test]
fn bound_core_takes_the_serial_of_the_device() {
    let handler = SDCore::new(config("CFG1"), profile(Some("DEV9")), 60);
    assert!(!handler.core.is_closed());
    assert_eq!(handler.core.serial_number, "DEV9");
    assert_eq!(handler.core.serial_number(), "CFG1");
    assert_eq!(handler.core.image_size, (72, 72));
    assert_eq!(handler.core.kind, Kind::Mk2);
    assert_eq!(handler.core.key_count, 15);
    assert_eq!(handler.core.pool_rate, 60);
    assert_eq!(handler.core.socket_events.len(), 1);
    match &handler.core.socket_events[0] {
        SDGlobalEvent::DeviceConnected { serial_number } => assert_eq!(serial_number, "DEV9"),
        _ => panic!("the first event tells of the connection"),
    }
    let fallback = SDCore::new(config("CFG1"), profile(None), 60);
    assert_eq!(fallback.core.serial_number, "CFG1");
}

#[test]
fn commands_reach_the_worker_in_order() {
    let mut handler = SDCore::new(config("A"), profile(Some("A")), 30);
    handler.core.mark_for_redraw();
    handler.core.send_commands(vec![
        DeviceThreadCommunication::SetBrightness(70),
        DeviceThreadCommunication::SetImage(3, vec![1, 2, 3]),
    ]);
    handler.core.close();
    let sent = &handler.core.handles.as_ref().unwrap().renderer.sent;
    assert_eq!(sent.len(), 3);
    assert!(matches!(sent[0][..], [DeviceThreadCommunication::RefreshScreen]));
    assert_eq!(sent[1].len(), 2);
    assert!(matches!(sent[1][0], DeviceThreadCommunication::SetBrightness(70)));
    assert!(matches!(sent[2][..], [DeviceThreadCommunication::Shutdown]));
    assert!(handler.core.is_closed());
    match handler.core.socket_events.last().unwrap() {
        SDGlobalEvent::DeviceDisconnected { serial_number } => assert_eq!(serial_number, "A"),
        _ => panic!("the last event tells of the disconnect"),
    }
}

#[test]
fn keys_resolve_in_the_active_frame() {
    let mut handler = SDCore::new(config("A"), profile(Some("A")), 30);
    reset_stack(&mut handler.core, &layout(&[0, 2]));
    assert_eq!(handler.core.current_stack.len(), 1);
    assert_eq!(handler.core.buttons.len(), 2);
    let down = button_down(&handler.core, 2).unwrap();
    assert_eq!(down.key, 2);
    assert!(down.pressed);
    let shown = handler.core.buttons.button_to_raw(down.button);
    assert_eq!(shown.component("key"), Some(Value::from(2u8)));
    let up = button_up(&handler.core, 0).unwrap();
    assert!(!up.pressed);
    assert!(button_down(&handler.core, 1).is_none());
    let active = handler.core.buttons.panel(handler.core.current_stack.active()).unwrap();
    let raw = panel_to_raw(&handler.core.buttons, active);
    assert_eq!(raw.display_name, "Root");
    assert_eq!(raw.buttons.len(), 2);
    let sent = &handler.core.handles.as_ref().unwrap().renderer.sent;
    assert!(matches!(sent[0][..], [DeviceThreadCommunication::RefreshScreen]));
}

#[test]
fn loop_dispatches_until_the_channel_is_exhausted() {
    let mut handler = SDCore::new(config("A"), profile(Some("A")), 30);
    reset_stack(&mut handler.core, &layout(&[0, 2]));
    handler.deliver(0, true);
    handler.deliver(1, true);
    handler.deliver(0, false);
    handler.deliver(2, true);
    let actions = handler.run_loop();
    let seen: Vec<(u8, bool)> = actions.iter().map(|a| (a.key, a.pressed)).collect();
    assert_eq!(seen, vec![(0, true), (0, false), (2, true)]);
    assert!(handler.receiver.is_empty());
    assert!(handler.run_loop().is_empty());
}

#[test]
fn closed_core_dispatches_nothing() {
    let mut handler = SDCore::new(config("A"), profile(Some("A")), 30);
    reset_stack(&mut handler.core, &layout(&[0, 2]));
    handler.deliver(0, true);
    handler.deliver(2, true);
    match handler.step() {
        LoopStep::Dispatched(Some(a)) => assert_eq!((a.key, a.pressed), (0, true)),
        _ => panic!("the event before the close is dispatched"),
    }
    handler.core.close();
    handler.deliver(0, false);
    assert!(matches!(handler.step(), LoopStep::Closed));
    assert!(handler.run_loop().is_empty());
    assert_eq!(handler.receiver, vec![(2, true), (0, false)]);
}

#[test]
fn open_loop_ends_when_nothing_is_pending() {
    let mut handler = SDCore::new(config("A"), profile(Some("A")), 30);
    assert!(matches!(handler.step(), LoopStep::Disconnected));
    handler.deliver(9, true);
    assert!(matches!(handler.step(), LoopStep::Dispatched(None)));
    assert!(matches!(handler.step(), LoopStep::Disconnected));
}

#[test]
fn brightness_is_kept_and_sent() {
    let mut handler = SDCore::new(config("A"), profile(Some("A")), 30);
    set_brightness(&mut handler.core, 85);
    assert_eq!(handler.core.device_config.brightness, 85);
    let sent = &handler.core.handles.as_ref().unwrap().renderer.sent;
    assert!(matches!(sent[0][..], [DeviceThreadCommunication::SetBrightness(85)]));
    let mut blank = SDCore::blank(config("B"));
    set_brightness(&mut blank, 10);
    assert_eq!(blank.device_config.brightness, 10);
    assert!(blank.handles.is_none());
    let copy = copy_config(&blank.device_config);
    assert_eq!(copy.serial, "B");
    assert_eq!(copy.brightness, 10);
    assert_eq!(copy.vid, 4057);
    assert_eq!(copy.layout.buttons.len(), 2);
}

#[test]
fn buttons_are_set_and_cleared_in_the_active_panel() {
    let mut handler = SDCore::new(config("A"), profile(Some("A")), 30);
    let core = &mut handler.core;
    let root = core.current_stack.active();
    let mut first = Button::new();
    first.insert_component("n", Value::from(1));
    let added = match set_button(core, 4, first) {
        Some(SDCoreEvent::ButtonAdded { key: 4, panel, added_button }) => {
            assert_eq!(panel.slot, root.slot);
            added_button
        },
        _ => panic!("a button on a free key is added"),
    };
    assert_eq!(button_down(core, 4).unwrap().button.cell, added.cell);
    core.current_stack.push(root);
    let mut second = Button::new();
    second.insert_component("n", Value::from(2));
    let replaced = match set_button(core, 4, second) {
        Some(SDCoreEvent::ButtonUpdated { key: 4, new_button, old_button, .. }) => {
            assert_eq!(old_button.cell, added.cell);
            new_button
        },
        _ => panic!("a button on a taken key is updated"),
    };
    core.current_stack.pop();
    let seen = button_up(core, 4).unwrap().button;
    assert_eq!(seen.cell, replaced.cell);
    assert_eq!(core.buttons.button_to_raw(seen).component("n"), Some(Value::from(2)));
    assert_eq!(core.buttons.button_to_raw(added).component("n"), Some(Value::from(1)));
    assert!(clear_button(core, 9).is_none());
    match clear_button(core, 4) {
        Some(SDCoreEvent::ButtonDeleted { key: 4, deleted_button, .. }) => {
            assert_eq!(deleted_button.cell, replaced.cell)
        },
        _ => panic!("a button on a taken key is deleted"),
    }
    assert!(button_down(core, 4).is_none());
    assert_eq!(core.buttons.len(), 2);
}
