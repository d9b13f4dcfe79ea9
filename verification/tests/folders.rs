use serde_json::Value;
use std::collections::HashMap;
use streamduck::button::Button;
use streamduck::components::{
    module_component_map_to_component_map, put_definition, ComponentDefinition, ModuleComponents,
    NamedDefinition,
};
use streamduck::device::{DeviceConfig, DeviceProfile, Kind, SDCore, SDCoreEvent};
use streamduck::folders::{
    blank_folder, delete_folder, delete_folder_recursively, find_folder, find_reference,
    forget_button, get_folder, list_folders, new_folder, new_folder_named, random_unique_name,
    record_button, spare_name, straight_copy, update_folder, FolderComponent, FolderEntry,
    FolderLinkComponent, FolderModule, FolderStackData, FolderUpComponent,
};
use streamduck::panel::{
    panel_to_raw, ButtonPanel, Panel, RawButtonPanel, UniqueButton, UniquePanel,
};

fn json(text: &str) -> Value {
    serde_json::from_str(text).unwrap()
}

fn folder_button(id: &str, name: &str) -> Button {
    let mut b = Button::new();
    let c = FolderComponent { id: id.to_string(), name: name.to_string() };
    b.insert_component("folder", c.to_value());
    b
}

fn panel(name: &str, buttons: Vec<(u8, Button)>) -> RawButtonPanel {
    let mut map = HashMap::new();
    for (k, b) in buttons {
        map.insert(k, b);
    }
    Panel { display_name: name.to_string(), data: Value::Null, buttons: map }
}

fn folder(id: &str, name: &str, buttons: Vec<(u8, Button)>) -> FolderEntry {
    FolderEntry { id: id.to_string(), panel: panel(name, buttons) }
}

fn ids(folders: &Vec<FolderEntry>) -> Vec<String> {
    folders.iter().map(|f| f.id.clone()).collect()
}

fn live_core() -> SDCore {
    let config = DeviceConfig {
        vid: 1,
        pid: 2,
        serial: "A".to_string(),
        brightness: 50,
        layout: panel("Root", Vec::new()),
        plugin_data: String::new(),
    };
    let profile = DeviceProfile {
        serial: Some("A".to_string()),
        image_size: (72, 72),
        kind: Kind::Xl,
        key_count: 32,
    };
    SDCore::new(config, profile, 30).core
}

fn active(core: &SDCore) -> &ButtonPanel {
    core.buttons.panel(core.current_stack.active()).unwrap()
}

fn active_name(core: &SDCore) -> String {
    active(core).display_name.clone()
}

#[test]
fn folder_components_read_and_write_json() {
    let c = FolderComponent { id: "abc".to_string(), name: "My \"F\"".to_string() };
    assert_eq!(c.to_value(), json("{\"id\":\"abc\",\"name\":\"My \\\"F\\\"\"}"));
    let back = FolderComponent::from_value(&c.to_value()).unwrap();
    assert_eq!((back.id.as_str(), back.name.as_str()), ("abc", "My \"F\""));
    let no_id = FolderComponent::from_value(&json("{\"name\":\"N\"}")).unwrap();
    assert_eq!(no_id.id, "");
    assert!(FolderComponent::from_value(&json("{\"id\":\"x\"}")).is_none());
    assert!(FolderComponent::from_value(&json("{\"id\":3,\"name\":\"N\"}")).is_none());
    assert!(FolderComponent::from_value(&json("\"folder\"")).is_none());
    let link = FolderLinkComponent { id: "abc".to_string() };
    assert_eq!(link.to_value(), json("{\"id\":\"abc\"}"));
    assert_eq!(FolderLinkComponent::from_value(&json("{}")).unwrap().id, "");
    assert!(FolderLinkComponent::from_value(&json("[]")).is_none());
    assert_eq!((FolderUpComponent {}).to_value(), json("{}"));
    let data = FolderStackData { folder_id: "abc".to_string() };
    assert_eq!(data.to_value(), json("{\"folder_id\":\"abc\"}"));
    assert_eq!(FolderStackData::from_value(&data.to_value()).unwrap().folder_id, "abc");
    assert!(FolderStackData::from_value(&Value::Null).is_none());
    assert!(FolderStackData::from_value(&json("{}")).is_none());
    assert_eq!(FolderComponent::name(), "folder");
    assert_eq!(FolderLinkComponent::name(), "folder_link");
    assert_eq!(FolderUpComponent::name(), "folder_up");
    let b = folder_button("abc", "N");
    assert_eq!(FolderComponent::from_button(&b).unwrap().id, "abc");
    assert!(FolderLinkComponent::from_button(&b).is_none());
    assert!(FolderUpComponent::from_button(&b).is_none());
}

#[test]
fn folders_are_kept_by_id() {
    let mut folders = vec![folder("a", "A", Vec::new())];
    assert_eq!(find_folder(&folders, "a"), Some(0));
    assert_eq!(find_folder(&folders, "b"), None);
    assert!(get_folder(&folders, "b").is_none());
    update_folder(&mut folders, "b".to_string(), panel("B", vec![(1, Button::new())]));
    update_folder(&mut folders, "a".to_string(), panel("A2", Vec::new()));
    assert_eq!(ids(&folders), vec!["a", "b"]);
    assert_eq!(get_folder(&folders, "a").unwrap().display_name, "A2");
    assert_eq!(get_folder(&folders, "b").unwrap().buttons.len(), 1);
    assert!(!new_folder_named(&mut folders, "a".to_string()));
    assert!(new_folder_named(&mut folders, "c".to_string()));
    assert_eq!(get_folder(&folders, "c").unwrap().display_name, "Folder");
    assert_eq!(blank_folder().buttons.len(), 0);
    assert!(blank_folder().data.is_null());
    assert!(get_folder(&folders, "c").unwrap().data.is_null());
    delete_folder(&mut folders, "zz");
    delete_folder(&mut folders, "a");
    assert_eq!(ids(&folders), vec!["b", "c"]);
    let listed = list_folders(&folders);
    assert_eq!(ids(&listed), vec!["b", "c"]);
    assert_eq!(listed[0].panel.display_name, "B");
    assert_eq!(listed[0].panel.buttons.len(), 1);
    assert!(FolderModule::default().folder_references.is_empty());
    assert_eq!(panel("P", vec![(4, Button::new())]).into_buttons().len(), 1);
}

#[test]
fn new_folder_has_a_fresh_random_id() {
    let mut folders = vec![folder("a", "A", Vec::new())];
    let id = new_folder(&mut folders);
    assert_eq!(id.len(), 16);
    assert!(id.chars().all(|c| c.is_ascii_alphanumeric()));
    assert_eq!(folders.len(), 2);
    assert_eq!(folders[1].id, id);
    assert_eq!(folders[1].panel.display_name, "Folder");
    assert!(folders[1].panel.data.is_null());
    assert!(folders[1].panel.buttons.is_empty());
    assert_eq!(folders[0].id, "a");
    assert_eq!(folders[0].panel.display_name, "A");
    let other = random_unique_name(&folders);
    assert_eq!(other.len(), 16);
    assert!(find_folder(&folders, &other).is_none());
    let spare = spare_name(&folders);
    assert_eq!(spare, format!("a{}a", id));
    assert!(find_folder(&folders, &spare).is_none());
    assert_eq!(spare_name(&Vec::new()), "a");
}

#[test]
fn recursive_delete_takes_the_folders_below() {
    let mut folders = vec![
        folder("root", "R", vec![(0, folder_button("kid", "K")), (1, Button::new())]),
        folder("other", "O", vec![(0, folder_button("root", "loop"))]),
        folder("kid", "K", vec![(5, folder_button("grandkid", "G")), (6, folder_button("root", "R"))]),
        folder("grandkid", "G", vec![(2, folder_button("gone", "X"))]),
    ];
    delete_folder_recursively(&mut folders, "missing");
    assert_eq!(folders.len(), 4);
    delete_folder_recursively(&mut folders, "root");
    assert_eq!(ids(&folders), vec!["other"]);
}

#[test]
fn buttons_of_a_folder_panel_are_recorded() {
    let mut folders = vec![folder("a", "A", Vec::new()), folder("b", "B", Vec::new())];
    let data = (FolderStackData { folder_id: "b".to_string() }).to_value();
    record_button(&mut folders, &data, 4, folder_button("x", "X"));
    record_button(&mut folders, &Value::Null, 5, Button::new());
    record_button(&mut folders, &json("{\"folder_id\":\"zz\"}"), 5, Button::new());
    assert_eq!(folders[0].panel.buttons.len(), 0);
    assert_eq!(folders[1].panel.buttons.len(), 1);
    assert!(folders[1].panel.buttons.get(&4).unwrap().contains("folder"));
    forget_button(&mut folders, &data, 9);
    assert_eq!(folders[1].panel.buttons.len(), 1);
    forget_button(&mut folders, &data, 4);
    assert_eq!(folders[1].panel.buttons.len(), 0);
    assert_eq!(folders[1].panel.display_name, "B");
}

#[test]
fn pressing_folder_buttons_moves_through_the_stack() {
    let mut core = live_core();
    let mut module = FolderModule::new();
    let mut up = Button::new();
    up.insert_component("folder_up", (FolderUpComponent {}).to_value());
    let mut link = Button::new();
    link.insert_component("folder_link", (FolderLinkComponent { id: "a".to_string() }).to_value());
    let mut folders = vec![folder("a", "Stored", vec![(0, up), (3, Button::new())])];
    let open = core.buttons.make_button_unique(folder_button("a", "Shown"));
    let linked = core.buttons.make_button_unique(link);
    let plain = core.buttons.make_button_unique(Button::new());
    let missing = core.buttons.make_button_unique(folder_button("nope", "N"));

    module.event(&mut core, &mut folders, SDCoreEvent::ButtonAction { key: 0, pressed_button: plain });
    module.event(&mut core, &mut folders, SDCoreEvent::ButtonAction { key: 0, pressed_button: missing });
    module.event(
        &mut core,
        &mut folders,
        SDCoreEvent::ButtonAction { key: 0, pressed_button: UniqueButton { cell: 999 } },
    );
    assert_eq!(core.current_stack.len(), 1);
    assert!(module.folder_references.is_empty());

    module.event(&mut core, &mut folders, SDCoreEvent::ButtonAction { key: 0, pressed_button: open });
    assert_eq!(core.current_stack.len(), 2);
    assert_eq!(active_name(&core), "Shown");
    assert_eq!(active(&core).data, json("{\"folder_id\":\"a\"}"));
    assert_eq!(active(&core).buttons.len(), 2);
    assert_eq!(module.folder_references.len(), 1);
    assert_eq!(find_reference(&module.folder_references, "a"), Some(0));
    let first_cell = active(&core).buttons.get(&3).unwrap().cell;
    let first_panel = core.current_stack.active().slot;

    module.event(&mut core, &mut folders, SDCoreEvent::ButtonAction { key: 1, pressed_button: linked });
    assert_eq!(core.current_stack.len(), 3);
    assert_eq!(active_name(&core), "Shown");
    assert_eq!(active(&core).buttons.get(&3).unwrap().cell, first_cell);
    assert_eq!(core.current_stack.active().slot, first_panel);
    assert_eq!(module.folder_references.len(), 1);
    assert_eq!(module.folder_references[0].panel.slot, first_panel);

    let back = *active(&core).buttons.get(&0).unwrap();
    module.event(&mut core, &mut folders, SDCoreEvent::ButtonAction { key: 0, pressed_button: back });
    assert_eq!(core.current_stack.len(), 2);
    module.event(&mut core, &mut folders, SDCoreEvent::ButtonAction { key: 0, pressed_button: back });
    module.event(&mut core, &mut folders, SDCoreEvent::ButtonAction { key: 0, pressed_button: back });
    assert_eq!(core.current_stack.len(), 1);
    assert_eq!(active_name(&core), "");
    assert_eq!(folders.len(), 1);
    let kept = core.buttons.panel(module.folder_references[0].panel).unwrap();
    let raw = panel_to_raw(&core.buttons, kept);
    assert!(raw.buttons.get(&0).unwrap().contains("folder_up"));
}

#[test]
fn link_opens_a_folder_under_its_stored_name() {
    let mut core = live_core();
    let mut module = FolderModule::new();
    let folders = vec![folder("a", "Stored", Vec::new())];
    module.open_folder(&mut core, &folders, "a", None);
    assert_eq!(active_name(&core), "Stored");
    module.open_folder(&mut core, &folders, "zz", Some("Other".to_string()));
    assert_eq!(core.current_stack.len(), 2);
}

#[test]
fn button_events_keep_the_folder_contents() {
    let mut core = live_core();
    let mut module = FolderModule::new();
    let mut folders = vec![
        folder("a", "A", Vec::new()),
        folder("kid", "K", vec![(0, folder_button("deep", "D"))]),
        folder("deep", "D", Vec::new()),
    ];
    module.open_folder(&mut core, &folders, "a", None);
    let shown = core.current_stack.active();
    assert_eq!(active(&core).data, json("{\"folder_id\":\"a\"}"));
    let added = core.buttons.make_button_unique(folder_button("kid", "K"));
    module.event(
        &mut core,
        &mut folders,
        SDCoreEvent::ButtonAdded { key: 2, panel: shown, added_button: added },
    );
    assert!(folders[0].panel.buttons.get(&2).unwrap().contains("folder"));
    let mut changed = core.buttons.button_to_raw(added);
    changed.insert_component("renderer", json("{}"));
    core.buttons.write(added, changed);
    module.event(
        &mut core,
        &mut folders,
        SDCoreEvent::ButtonUpdated { key: 2, panel: shown, new_button: added, old_button: added },
    );
    assert!(folders[0].panel.buttons.get(&2).unwrap().contains("renderer"));
    module.event(
        &mut core,
        &mut folders,
        SDCoreEvent::ButtonDeleted { key: 2, panel: shown, deleted_button: added },
    );
    assert_eq!(ids(&folders), vec!["a"]);
    assert!(folders[0].panel.buttons.is_empty());
    assert_eq!(core.current_stack.len(), 2);
    module.event(
        &mut core,
        &mut folders,
        SDCoreEvent::ButtonAdded { key: 2, panel: UniquePanel { slot: 99 }, added_button: added },
    );
    assert!(folders[0].panel.buttons.is_empty());
}

#[test]
fn components_are_added_and_removed_by_name() {
    let module = FolderModule::new();
    let mut folders: Vec<FolderEntry> = Vec::new();
    let mut b = Button::new();
    module.add_component(&mut folders, &mut b, "something");
    assert!(b.components.is_empty());
    module.add_component(&mut folders, &mut b, "folder");
    assert_eq!(folders.len(), 1);
    let c = FolderComponent::from_button(&b).unwrap();
    assert_eq!(c.id, folders[0].id);
    assert_eq!(c.name, "Folder");
    module.add_component(&mut folders, &mut b, "folder_link");
    assert!(!b.contains("folder_link"));
    module.add_component(&mut folders, &mut b, "folder_up");
    assert!(b.contains("folder_up"));
    module.remove_component(&mut folders, &mut b, "folder_up");
    module.remove_component(&mut folders, &mut b, "folder");
    assert!(b.components.is_empty());
    assert!(folders.is_empty());
    module.add_component(&mut folders, &mut b, "folder_link");
    assert_eq!(FolderLinkComponent::from_button(&b).unwrap().id, "");
    module.add_component(&mut folders, &mut b, "folder");
    assert!(!b.contains("folder"));
    assert!(folders.is_empty());
    module.remove_component(&mut folders, &mut b, "folder_link");
    assert!(b.components.is_empty());
}

#[test]
fn pasted_folder_gets_a_copy_under_a_new_id() {
    let module = FolderModule::new();
    let mut folders = vec![folder("a", "A", vec![(1, Button::new())])];
    let mut reference = folder_button("a", "Named");
    reference.insert_component("folder_up", json("{}"));
    let mut target = Button::new();
    module.paste_component(&mut folders, &reference, &mut target);
    assert!(target.contains("folder_up"));
    assert!(!target.contains("folder_link"));
    let c = FolderComponent::from_button(&target).unwrap();
    assert_eq!(c.name, "Named");
    assert!(c.id != "a");
    assert_eq!(c.id.len(), 16);
    assert_eq!(folders.len(), 2);
    assert_eq!(folders[1].id, c.id);
    assert_eq!(folders[1].panel.display_name, "A");
    assert_eq!(folders[1].panel.buttons.len(), 1);
    let mut plain = Button::new();
    straight_copy(&reference, &mut plain, "folder_link");
    assert!(plain.components.is_empty());
    straight_copy(&reference, &mut plain, "folder_up");
    assert_eq!(plain.component("folder_up"), Some(json("{}")));
}

#[test]
fn module_describes_itself() {
    let module = FolderModule::new();
    assert_eq!(module.name(), "core/folder");
    assert_eq!(module.listening_for(), vec!["folder", "folder_link", "folder_up"]);
    let list = module.components();
    let names: Vec<&str> = list.iter().map(|d| d.name.as_str()).collect();
    assert_eq!(names, vec!["folder", "folder_link", "folder_up"]);
    assert_eq!(list[0].definition.display_name, "Folder");
    assert_eq!(list[1].definition.description, "Opens existing folders in symlink style");
    assert_eq!(list[2].definition.display_name, "Folder Up");
}

fn definition(name: &str, shown: &str) -> NamedDefinition {
    NamedDefinition {
        name: name.to_string(),
        definition: ComponentDefinition {
            display_name: shown.to_string(),
            description: String::new(),
            default_looks: String::new(),
        },
    }
}

#[test]
fn component_maps_of_modules_merge_into_one() {
    let modules = vec![
        ModuleComponents {
            module: "core/folder".to_string(),
            components: vec![definition("folder", "Folder"), definition("folder_up", "Up")],
        },
        ModuleComponents { module: "empty".to_string(), components: Vec::new() },
        ModuleComponents {
            module: "other".to_string(),
            components: vec![definition("clock", "Clock"), definition("folder", "Shadow")],
        },
    ];
    let map = module_component_map_to_component_map(&modules);
    let seen: Vec<(&str, &str)> =
        map.iter().map(|d| (d.name.as_str(), d.definition.display_name.as_str())).collect();
    assert_eq!(seen, vec![("folder", "Shadow"), ("folder_up", "Up"), ("clock", "Clock")]);
    assert!(module_component_map_to_component_map(&Vec::new()).is_empty());
    let mut list = vec![definition("a", "1")];
    put_definition(&mut list, &definition("b", "2"));
    put_definition(&mut list, &definition("a", "3"));
    assert_eq!(list.len(), 2);
    assert_eq!(list[0].definition.display_name, "3");
}
