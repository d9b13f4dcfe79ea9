use serde_json::Value;
use std::collections::HashMap;
use streamduck::button::Button;
use streamduck::folders::{
    FolderComponent, FolderEntry, FolderLinkComponent, FolderModule, FolderReference,
};
use streamduck::device::{DeviceConfig, DeviceProfile, Kind, SDCore};
use streamduck::panel::{empty_panel, Panel, UniquePanel};
use streamduck::values::{
    choice_for, is_choice, list_choices, split_second, text_named, UIFieldType, UIFieldValue,
    UIValue,
};

fn folder(id: &str, name: &str) -> FolderEntry {
    FolderEntry {
        id: id.to_string(),
        panel: Panel { display_name: name.to_string(), data: Value::Null, buttons: HashMap::new() },
    }
}

fn live_core() -> SDCore {
    let config = DeviceConfig {
        vid: 1,
        pid: 2,
        serial: "A".to_string(),
        brightness: 50,
        layout: Panel { display_name: String::new(), data: Value::Null, buttons: HashMap::new() },
        plugin_data: String::new(),
    };
    let profile = DeviceProfile {
        serial: None,
        image_size: (72, 72),
        kind: Kind::Mini,
        key_count: 6,
    };
    SDCore::new(config, profile, 30).core
}

fn field(name: &str, value: UIFieldValue) -> UIValue {
    UIValue {
        name: name.to_string(),
        display_name: String::new(),
        description: String::new(),
        ty: UIFieldType::Header,
        value,
    }
}

fn folder_button(id: &str, name: &str) -> Button {
    let mut b = Button::new();
    let c = FolderComponent { id: id.to_string(), name: name.to_string() };
    b.insert_component("folder", c.to_value());
    b
}

fn link_button(id: &str) -> Button {
    let mut b = Button::new();
    b.insert_component("folder_link", (FolderLinkComponent { id: id.to_string() }).to_value());
    b
}

#[test]
fn choices_read_name_then_id_in_brackets() {
    assert_eq!(choice_for("Games", "a1"), "Games (a1)");
    assert_eq!(choice_for("", ""), " ()");
    let folders = vec![folder("a1", "Games"), folder("b2", "Work (old)")];
    let choices = list_choices(&folders);
    assert_eq!(choices, vec!["Games (a1)", "Work (old) (b2)"]);
    assert!(is_choice(&choices, "Games (a1)"));
    assert!(!is_choice(&choices, "Games"));
    assert_eq!(split_second("Games (a1)"), Some("a1".to_string()));
    assert_eq!(split_second("Work (old) (b2)"), Some("old".to_string()));
    assert_eq!(split_second("x)y"), Some("y".to_string()));
    assert_eq!(split_second("x("), Some(String::new()));
    assert_eq!(split_second("no brackets"), None);
    assert_eq!(split_second("\u{e9}(\u{fc}\u{df})"), Some("\u{fc}\u{df}".to_string()));
}

#[test]
fn fields_are_found_by_name_last_one_first() {
    let values = vec![
        field("name", UIFieldValue::InputFieldString("first".to_string())),
        field("id", UIFieldValue::Choice("Games (a1)".to_string())),
        field("name", UIFieldValue::Label("second".to_string())),
        field("count", UIFieldValue::InputFieldInteger(3)),
        field("flag", UIFieldValue::Checkbox(true)),
    ];
    assert_eq!(text_named(&values, "name"), Some("second".to_string()));
    assert_eq!(text_named(&values, "id"), Some("Games (a1)".to_string()));
    assert_eq!(text_named(&values, "count"), None);
    assert_eq!(text_named(&values, "flag"), None);
    assert_eq!(text_named(&values, "missing"), None);
    assert_eq!(UIFieldValue::Header.try_into_string(), None);
}

#[test]
fn folder_button_shows_id_and_name() {
    let module = FolderModule::new();
    let folders = vec![folder("a1", "Games")];
    let values = module.component_values(&folders, &folder_button("a1", "Play"), "folder");
    assert_eq!(values.len(), 2);
    assert_eq!(values[0].name, "id");
    assert_eq!(values[0].display_name, "ID");
    assert_eq!(values[0].description, "ID of the folder");
    assert!(matches!(values[0].ty, UIFieldType::Label));
    assert!(matches!(&values[0].value, UIFieldValue::Label(s) if s == "a1"));
    assert_eq!(values[1].name, "name");
    assert_eq!(values[1].display_name, "Folder Name");
    assert!(matches!(values[1].ty, UIFieldType::InputFieldString));
    assert!(matches!(&values[1].value, UIFieldValue::InputFieldString(s) if s == "Play"));
    assert!(module.component_values(&folders, &folder_button("a1", "Play"), "folder_link").is_empty());
    assert!(module.component_values(&folders, &Button::new(), "folder").is_empty());
    assert!(module.component_values(&folders, &folder_button("a1", "Play"), "clock").is_empty());
}

#[test]
fn link_button_shows_the_folders_to_choose_from() {
    let module = FolderModule::new();
    let folders = vec![folder("a1", "Games"), folder("b2", "Work")];
    let values = module.component_values(&folders, &link_button("b2"), "folder_link");
    assert_eq!(values.len(), 1);
    assert_eq!(values[0].description, "Folder to link to");
    assert!(matches!(&values[0].ty, UIFieldType::Choice(c) if *c == vec!["Games (a1)", "Work (b2)"]));
    assert!(matches!(&values[0].value, UIFieldValue::Choice(s) if s == "Work (b2)"));
    let dangling = module.component_values(&folders, &link_button("zz"), "folder_link");
    assert!(matches!(&dangling[0].value, UIFieldValue::Choice(s) if s.is_empty()));
}

#[test]
fn new_folder_name_reaches_folder_and_kept_panel() {
    let mut module = FolderModule::new();
    let mut core = live_core();
    let mut kept = empty_panel();
    kept.display_name = "Games".to_string();
    let handle = core.buttons.make_panel_live(kept);
    core.current_stack.push(handle);
    module.folder_references.push(FolderReference { id: "a1".to_string(), panel: handle });
    let mut folders = vec![folder("zz", "Other"), folder("a1", "Games")];
    let mut b = folder_button("a1", "Games");
    let values = vec![field("name", UIFieldValue::InputFieldString("Play".to_string()))];
    module.set_component_value(&mut core, &mut folders, &mut b, "folder", &values);
    let c = FolderComponent::from_button(&b).unwrap();
    assert_eq!((c.id.as_str(), c.name.as_str()), ("a1", "Play"));
    assert_eq!(folders[1].panel.display_name, "Play");
    assert_eq!(folders[0].panel.display_name, "Other");
    let active = core.buttons.panel(core.current_stack.active()).unwrap();
    assert_eq!(active.display_name, "Play");
    assert_eq!(core.buttons.panel(UniquePanel { slot: 0 }).unwrap().display_name, "");
    let wrong = vec![field("name", UIFieldValue::Checkbox(true))];
    module.set_component_value(&mut core, &mut folders, &mut b, "folder", &wrong);
    assert_eq!(FolderComponent::from_button(&b).unwrap().name, "Play");
    assert_eq!(folders[1].panel.display_name, "Play");
}

#[test]
fn link_takes_the_id_of_the_chosen_folder() {
    let module = FolderModule::new();
    let mut core = live_core();
    let mut folders = vec![folder("a1", "Games"), folder("b2", "Work")];
    let mut b = link_button("");
    let values = vec![field("id", UIFieldValue::Choice("Work (b2)".to_string()))];
    module.set_component_value(&mut core, &mut folders, &mut b, "folder_link", &values);
    assert_eq!(FolderLinkComponent::from_button(&b).unwrap().id, "b2");
    let unknown = vec![field("id", UIFieldValue::Choice("Nope (zz)".to_string()))];
    module.set_component_value(&mut core, &mut folders, &mut b, "folder_link", &unknown);
    assert_eq!(FolderLinkComponent::from_button(&b).unwrap().id, "b2");
    module.set_component_value(&mut core, &mut folders, &mut b, "folder", &values);
    module.set_component_value(&mut core, &mut folders, &mut b, "clock", &values);
    assert_eq!(b.components.len(), 1);
    assert_eq!(folders.len(), 2);
}

#[test]
fn folder_module_names_its_author_and_features() {
    let m = FolderModule::new().metadata();
    assert_eq!(m.name, "core/folder");
    assert_eq!(m.author, "TheJebForge");
    assert_eq!(m.description, "Folder module, provides folder components");
    assert_eq!(m.version, "0.1");
    assert_eq!(m.used_features, vec!["core", "core_methods", "module_manager", "core_events"]);
}
