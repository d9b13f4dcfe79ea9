use serde_json::Value;
use std::collections::HashMap;
use streamduck::button::Button;
use streamduck::codec::{export_text, import_text};
use streamduck::config::{
    Config, ConfigEntry, ConfigError, CoreManager, DaemonListener, DeviceData, DiskOutcome,
    ExportDeviceConfig, ExportDeviceConfigResult, GetDeviceConfig, GetDeviceConfigResult,
    ImportDeviceConfig, ImportDeviceConfigResult, ReloadDeviceConfig, ReloadDeviceConfigResult,
    ReloadDeviceConfigsResult, SaveDeviceConfig, SaveDeviceConfigResult, SaveDeviceConfigsResult,
};
use streamduck::device::{DeviceConfig, DeviceProfile, DeviceThreadCommunication, Kind, SDCore};
use streamduck::packet::SocketPacket;
use streamduck::registry::DispatchRegistry;
use streamduck::panel::{panel_to_raw, Panel, RawButtonPanel};

fn layout(name: &str, keys: &[u8]) -> RawButtonPanel {
    let mut buttons = HashMap::new();
    for k in keys {
        let mut b = Button::new();
        b.insert_component("key", Value::from(*k));
        buttons.insert(*k, b);
    }
    Panel { display_name: name.to_string(), data: Value::Null, buttons }
}

fn config(serial: &str, name: &str, keys: &[u8]) -> DeviceConfig {
    DeviceConfig {
        vid: 1,
        pid: 2,
        serial: serial.to_string(),
        brightness: 50,
        layout: layout(name, keys),
        plugin_data: "{}".to_string(),
    }
}

fn entry(serial: &str, name: &str, keys: &[u8]) -> ConfigEntry {
    ConfigEntry { serial: serial.to_string(), config: config(serial, name, keys) }
}

fn open_device(serial: &str) -> DeviceData {
    let profile = DeviceProfile {
        serial: Some(serial.to_string()),
        image_size: (72, 72),
        kind: Kind::Original,
        key_count: 15,
    };
    let handler = SDCore::new(config(serial, "Old", &[]), profile, 30);
    DeviceData { core: handler.core, vid: 4057, pid: 96, serial: serial.to_string() }
}

fn listener() -> DaemonListener {
    DaemonListener {
        config: Config { loaded_configs: vec![entry("A", "Old A", &[1]), entry("B", "Old B", &[])] },
        core_manager: CoreManager {
            devices: vec![
                open_device("A"),
                DeviceData {
                    core: SDCore::blank(config("B", "Old", &[])),
                    vid: 7,
                    pid: 8,
                    serial: "B".to_string(),
                },
            ],
        },
    }
}

fn request(name: &str, members: &[(&str, &str)]) -> SocketPacket {
    let mut data = serde_json::Map::new();
    for (k, v) in members {
        data.insert(k.to_string(), Value::String(v.to_string()));
    }
    SocketPacket {
        ty: name.to_string(),
        requester: Some("tok".to_string()),
        data: Some(Value::Object(data)),
    }
}

fn shown_name(l: &DaemonListener, i: usize) -> String {
    let core = &l.core_manager.devices[i].core;
    let active = core.buttons.panel(core.current_stack.active()).unwrap();
    panel_to_raw(&core.buttons, active).display_name
}

#[test]
fn requests_are_read_from_packets_of_their_name() {
    let p = request("save_device_config", &[("serial_number", "A")]);
    assert_eq!(SaveDeviceConfig::from_packet(&p).unwrap().serial_number, "A");
    assert!(ReloadDeviceConfig::from_packet(&p).is_none());
    assert!(GetDeviceConfig::from_packet(&p).is_none());
    assert!(ExportDeviceConfig::from_packet(&p).is_none());
    assert!(ImportDeviceConfig::from_packet(&p).is_none());
    let bare = SocketPacket { ty: "save_device_config".to_string(), requester: None, data: None };
    assert!(SaveDeviceConfig::from_packet(&bare).is_none());
    let wrong = request("save_device_config", &[("serial", "A")]);
    assert!(SaveDeviceConfig::from_packet(&wrong).is_none());
    let import = request("import_device_config", &[("serial_number", "A"), ("config", "xx")]);
    let q = ImportDeviceConfig::from_packet(&import).unwrap();
    assert_eq!((q.serial_number.as_str(), q.config.as_str()), ("A", "xx"));
    let half = request("import_device_config", &[("serial_number", "A")]);
    assert!(ImportDeviceConfig::from_packet(&half).is_none());
    assert_eq!(SaveDeviceConfig::name(), "save_device_config");
    assert_eq!(ReloadDeviceConfig::name(), "reload_device_config");
    assert_eq!(GetDeviceConfig::name(), "get_device_config");
    assert_eq!(ExportDeviceConfig::name(), "export_device_config");
    assert_eq!(ImportDeviceConfig::name(), "import_device_config");
    assert_eq!(SaveDeviceConfigsResult::name(), "save_device_configs");
    assert_eq!(ReloadDeviceConfigsResult::name(), "reload_device_configs");
}

#[test]
fn unknown_serial_gives_device_not_found() {
    let mut l = listener();
    let serial = "NOPE".to_string();
    let save = SaveDeviceConfig { serial_number: serial.clone() };
    assert_eq!(save.process(&l, DiskOutcome::Done), SaveDeviceConfigResult::DeviceNotFound);
    assert_eq!(save.process(&l, DiskOutcome::IoError), SaveDeviceConfigResult::DeviceNotFound);
    assert_eq!(save.process(&l, DiskOutcome::ParseError), SaveDeviceConfigResult::DeviceNotFound);
    let get = GetDeviceConfig { serial_number: serial.clone() };
    assert!(matches!(get.process(&l), GetDeviceConfigResult::DeviceNotFound));
    let export = ExportDeviceConfig { serial_number: serial.clone() };
    assert!(matches!(export.process(&l, "{}"), ExportDeviceConfigResult::DeviceNotFound));
    let reload = ReloadDeviceConfig { serial_number: serial.clone() };
    assert_eq!(
        reload.process(&mut l, Err(ConfigError::IoError)),
        ReloadDeviceConfigResult::DeviceNotFound
    );
    assert_eq!(
        reload.process(&mut l, Ok(config("NOPE", "New", &[]))),
        ReloadDeviceConfigResult::DeviceNotFound
    );
    let import = ImportDeviceConfig { serial_number: serial, config: String::new() };
    assert_eq!(
        import.process(&mut l, Some(config("X", "New", &[])), DiskOutcome::IoError),
        ImportDeviceConfigResult::DeviceNotFound
    );
    assert_eq!(
        import.process(&mut l, None, DiskOutcome::Done),
        ImportDeviceConfigResult::DeviceNotFound
    );
    assert_eq!(
        import.process(&mut l, None, DiskOutcome::ParseError),
        ImportDeviceConfigResult::DeviceNotFound
    );
    assert_eq!(l.core_manager.devices[0].core.current_stack.len(), 1);
    assert_eq!(l.config.loaded_configs.len(), 2);
}

#[test]
fn save_reports_what_the_disk_gave() {
    let l = listener();
    let save = SaveDeviceConfig { serial_number: "A".to_string() };
    assert_eq!(save.process(&l, DiskOutcome::Done), SaveDeviceConfigResult::Saved);
    assert_eq!(save.process(&l, DiskOutcome::IoError), SaveDeviceConfigResult::ConfigError);
    assert_eq!(save.process(&l, DiskOutcome::ParseError), SaveDeviceConfigResult::ConfigError);
    let all = SocketPacket { ty: "save_device_configs".to_string(), requester: None, data: None };
    assert_eq!(
        SaveDeviceConfigsResult::process(&all, DiskOutcome::Done),
        Some(SaveDeviceConfigsResult::Saved)
    );
    assert_eq!(
        SaveDeviceConfigsResult::process(&all, DiskOutcome::IoError),
        Some(SaveDeviceConfigsResult::ConfigError)
    );
    let other = SocketPacket { ty: "save".to_string(), requester: None, data: None };
    assert_eq!(SaveDeviceConfigsResult::process(&other, DiskOutcome::Done), None);
}

#[test]
fn get_gives_a_copy_of_the_configuration() {
    let l = listener();
    let get = GetDeviceConfig { serial_number: "A".to_string() };
    match get.process(&l) {
        GetDeviceConfigResult::Config(c) => {
            assert_eq!(c.serial, "A");
            assert_eq!(c.layout.display_name, "Old A");
            assert_eq!(c.layout.buttons.len(), 1);
            assert_eq!(c.brightness, 50);
        },
        GetDeviceConfigResult::DeviceNotFound => panic!("the device is known"),
    }
    assert_eq!(l.config.get_device_config("B").unwrap().layout.display_name, "Old B");
    assert!(l.config.get_device_config("C").is_none());
    assert_eq!(l.config.find("B"), Some(1));
    assert_eq!(l.core_manager.get_device("B"), Some(1));
    assert_eq!(l.core_manager.get_device("C"), None);
}

#[test]
fn reload_of_one_device_resets_its_stack() {
    let mut l = listener();
    let reload = ReloadDeviceConfig { serial_number: "A".to_string() };
    assert_eq!(
        reload.process(&mut l, Err(ConfigError::ParseError)),
        ReloadDeviceConfigResult::ConfigError
    );
    assert_eq!(
        reload.process(&mut l, Err(ConfigError::DeviceNotFound)),
        ReloadDeviceConfigResult::DeviceNotFound
    );
    assert_eq!(shown_name(&l, 0), "");
    assert_eq!(
        reload.process(&mut l, Ok(config("A", "New A", &[3, 4]))),
        ReloadDeviceConfigResult::Reloaded
    );
    assert_eq!(shown_name(&l, 0), "New A");
    assert_eq!(l.core_manager.devices[0].core.current_stack.len(), 1);
    let core = &l.core_manager.devices[0].core;
    assert_eq!(core.buttons.panel(core.current_stack.active()).unwrap().buttons.len(), 2);
    assert_eq!(l.config.loaded_configs.len(), 2);
    assert_eq!(l.config.loaded_configs[0].config.layout.display_name, "New A");
    assert_eq!(l.config.loaded_configs[1].config.layout.display_name, "Old B");
    let closed = ReloadDeviceConfig { serial_number: "B".to_string() };
    assert_eq!(
        closed.process(&mut l, Ok(config("B", "New B", &[1]))),
        ReloadDeviceConfigResult::Reloaded
    );
    assert_eq!(shown_name(&l, 1), "");
    assert_eq!(l.config.loaded_configs[1].config.layout.display_name, "New B");
}

#[test]
fn reload_of_all_resets_open_devices_only() {
    let mut l = listener();
    let p = SocketPacket { ty: "reload_device_configs".to_string(), requester: None, data: None };
    assert_eq!(
        ReloadDeviceConfigsResult::process(&mut l, &p, Err(ConfigError::IoError)),
        Some(ReloadDeviceConfigsResult::ConfigError)
    );
    assert_eq!(l.config.loaded_configs[0].config.layout.display_name, "Old A");
    let fresh = vec![entry("B", "New B", &[]), entry("A", "New A", &[5])];
    assert_eq!(
        ReloadDeviceConfigsResult::process(&mut l, &p, Ok(fresh)),
        Some(ReloadDeviceConfigsResult::Reloaded)
    );
    assert_eq!(l.config.loaded_configs[0].serial, "B");
    assert_eq!(shown_name(&l, 0), "New A");
    assert_eq!(shown_name(&l, 1), "");
    assert_eq!(l.core_manager.devices.len(), 2);
    assert_eq!(l.core_manager.devices[1].serial, "B");
    let other = SocketPacket { ty: "reload".to_string(), requester: None, data: None };
    assert_eq!(ReloadDeviceConfigsResult::process(&mut l, &other, Ok(Vec::new())), None);
    assert_eq!(l.config.loaded_configs.len(), 2);
}

#[test]
fn export_then_import_gives_the_text_back() {
    let text = "{\"vid\":1,\"pid\":2,\"serial\":\"A\",\"brightness\":50,\"layout\":{\"display_name\":\"Root \\u00e9\"}}";
    let form = export_text(text).unwrap();
    assert!(form.starts_with("H4sI"));
    assert!(form.chars().all(|c| c.is_ascii_alphanumeric() || c == '+' || c == '/' || c == '='));
    assert_eq!(import_text(&form), Some(text.to_string()));
    assert_eq!(import_text("not base64!"), None);
    assert_eq!(import_text("aGVsbG8gd29ybGQ="), None);
    assert_eq!(export_text("").and_then(|f| import_text(&f)), Some(String::new()));

    let l = listener();
    let export = ExportDeviceConfig { serial_number: "A".to_string() };
    let exported = match export.process(&l, text) {
        ExportDeviceConfigResult::Exported(s) => s,
        _ => panic!("a known device is exported"),
    };
    assert_eq!(exported, form);
    let import = ImportDeviceConfig { serial_number: "A".to_string(), config: exported };
    assert_eq!(import.config_text(), Some(text.to_string()));
    let broken = ImportDeviceConfig { serial_number: "A".to_string(), config: "%%".to_string() };
    assert_eq!(broken.config_text(), None);
}

#[test]
fn import_takes_over_the_configuration() {
    let mut l = listener();
    let import = ImportDeviceConfig { serial_number: "A".to_string(), config: String::new() };
    assert_eq!(
        import.process(&mut l, None, DiskOutcome::Done),
        ImportDeviceConfigResult::InvalidConfig
    );
    let mut incoming = config("FOREIGN", "Imported", &[0, 1, 2]);
    incoming.brightness = 90;
    incoming.vid = 99;
    assert_eq!(
        import.process(&mut l, Some(incoming), DiskOutcome::IoError),
        ImportDeviceConfigResult::FailedToSave
    );
    assert_eq!(l.config.loaded_configs[0].config.layout.display_name, "Imported");
    assert_eq!(shown_name(&l, 0), "");
    let mut incoming = config("FOREIGN", "Imported", &[0, 1, 2]);
    incoming.brightness = 90;
    incoming.vid = 99;
    assert_eq!(
        import.process(&mut l, Some(incoming), DiskOutcome::Done),
        ImportDeviceConfigResult::Imported
    );
    let kept = &l.config.loaded_configs[0].config;
    assert_eq!(kept.serial, "A");
    assert_eq!((kept.vid, kept.pid), (4057, 96));
    assert_eq!(kept.brightness, 90);
    assert_eq!(shown_name(&l, 0), "Imported");
    let core = &l.core_manager.devices[0].core;
    assert_eq!(core.buttons.panel(core.current_stack.active()).unwrap().buttons.len(), 3);
    assert_eq!(core.device_config.brightness, 90);
    let root = core.buttons.panel(core.current_stack.active()).unwrap();
    assert!(root.buttons.values().all(|h| h.cell < core.buttons.len()));
    assert_eq!(core.buttons.len(), 3);
    let sent = &core.handles.as_ref().unwrap().renderer.sent;
    assert_eq!(sent.len(), 2);
    assert!(matches!(sent[0][..], [DeviceThreadCommunication::RefreshScreen]));
    assert!(matches!(sent[1][..], [DeviceThreadCommunication::SetBrightness(90)]));
    assert_eq!(l.core_manager.devices[1].serial, "B");
    let mut store = Config { loaded_configs: Vec::new() };
    store.set_device_config("Z", config("Z", "Z", &[]));
    store.set_device_config("Z", config("Z", "Z2", &[]));
    assert_eq!(store.loaded_configs.len(), 1);
    assert_eq!(store.loaded_configs[0].config.layout.display_name, "Z2");
}

#[test]
fn registry_finds_the_handler_by_packet_name() {
    let mut table: DispatchRegistry<u32> = DispatchRegistry::new();
    let ping = SocketPacket { ty: "ping".to_string(), requester: None, data: None };
    assert!(table.handler_for(&ping).is_none());
    table.register("ping".to_string(), 1);
    table.register(SaveDeviceConfig::name().to_string(), 2);
    assert_eq!(table.handler_for(&ping), Some(&1));
    assert_eq!(
        table.handler_for(&request("save_device_config", &[("serial_number", "A")])),
        Some(&2)
    );
    table.register("ping".to_string(), 3);
    assert_eq!(table.handler_for(&ping), Some(&3));
    assert_eq!(table.entries.len(), 2);
    assert_eq!(table.find("save_device_config"), Some(1));
    let unknown = SocketPacket { ty: "pong".to_string(), requester: None, data: None };
    assert!(table.handler_for(&unknown).is_none());
}
