use serde_json::Value;
use std::collections::HashMap;
use streamduck::button::{str_equal, Button};
use streamduck::panel::{
    copy_raw_panel, empty_panel, make_panel_unique, panel_to_raw, ButtonStore, Panel,
    RawButtonPanel, UniqueButton, UniquePanel,
};
use streamduck::stack::PanelStack;

fn json(text: &str) -> Value {
    serde_json::from_str(text).unwrap()
}

fn button(parts: &[(&str, &str)]) -> Button {
    let mut b = Button::new();
    for (n, d) in parts {
        b.insert_component(n, json(d));
    }
    b
}

fn listing(b: &Button) -> Vec<(String, Value)> {
    b.components.iter().map(|c| (c.name.clone(), c.data.clone())).collect()
}

fn sample_panel() -> RawButtonPanel {
    let mut buttons = HashMap::new();
    buttons.insert(0u8, button(&[("folder", "{\"id\":\"a\",\"name\":\"A\"}")]));
    buttons.insert(7u8, button(&[("renderer", "{}"), ("folder_up", "{}")]));
    buttons.insert(255u8, button(&[]));
    Panel { display_name: "Root".to_string(), data: json("{\"k\":1}"), buttons }
}

fn same_panel(a: &RawButtonPanel, b: &RawButtonPanel) -> bool {
    a.display_name == b.display_name
        && a.data == b.data
        && a.buttons.len() == b.buttons.len()
        && a.buttons.iter().all(|(k, v)| match b.buttons.get(k) {
            Some(w) => listing(v) == listing(w),
            None => false,
        })
}

#[test]
fn button_components_are_kept_by_name() {
    let mut b = Button::new();
    assert!(!b.contains("folder"));
    assert!(b.component("folder").is_none());
    b.insert_component("folder", json("1"));
    b.insert_component("renderer", json("2"));
    b.insert_component("folder", json("3"));
    assert_eq!(
        listing(&b),
        vec![("renderer".to_string(), json("2")), ("folder".to_string(), json("3"))]
    );
    assert!(b.contains("folder"));
    assert_eq!(b.component("folder"), Some(json("3")));
    assert_eq!(b.component("renderer"), Some(json("2")));
    b.remove_component("missing");
    assert_eq!(b.components.len(), 2);
    b.remove_component("renderer");
    assert_eq!(listing(&b), vec![("folder".to_string(), json("3"))]);
    assert_eq!(listing(&b.duplicate()), listing(&b));
    assert!(str_equal("a", "a"));
    assert!(!str_equal("a", "b"));
}

fn named(store: &mut ButtonStore, name: &str) -> UniquePanel {
    let mut frame = empty_panel();
    frame.display_name = name.to_string();
    store.make_panel_live(frame)
}

fn active_name(store: &ButtonStore, stack: &PanelStack) -> String {
    store.panel(stack.active()).unwrap().display_name.clone()
}

#[test]
fn stack_is_never_empty() {
    let mut store = ButtonStore::new();
    let root = named(&mut store, "");
    let mut stack = PanelStack::new(root);
    assert_eq!(stack.len(), 1);
    stack.pop();
    stack.pop();
    assert_eq!(stack.len(), 1);
    assert_eq!(stack.active().slot, root.slot);
    let one = named(&mut store, "one");
    let two = named(&mut store, "two");
    stack.push(one);
    stack.push(two);
    assert_eq!(stack.len(), 3);
    assert_eq!(active_name(&store, &stack), "two");
    stack.pop();
    assert_eq!(active_name(&store, &stack), "one");
    stack.pop();
    stack.pop();
    stack.pop();
    assert_eq!(stack.len(), 1);
    assert_eq!(active_name(&store, &stack), "");
    assert!(store.panel(stack.active()).unwrap().data.is_null());
    let new_root = named(&mut store, "new root");
    stack.push(one);
    stack.reset(new_root);
    assert_eq!(stack.len(), 1);
    assert_eq!(active_name(&store, &stack), "new root");
}

#[test]
fn snapshot_lists_the_frames_root_first() {
    let mut store = ButtonStore::new();
    let root = named(&mut store, "");
    let mut stack = PanelStack::new(root);
    let mut frame = empty_panel();
    frame.display_name = "top".to_string();
    frame.buttons.insert(3, UniqueButton { cell: 9 });
    let top = store.make_panel_live(frame);
    stack.push(top);
    stack.push(top);
    let frames = stack.snapshot();
    let slots: Vec<usize> = frames.iter().map(|f| f.slot).collect();
    assert_eq!(slots, vec![0, 1, 1]);
    assert_eq!(store.panel(frames[2]).unwrap().display_name, "top");
    assert_eq!(stack.button_at(&store, 3).map(|h| h.cell), Some(9));
    assert!(stack.button_at(&store, 4).is_none());
    assert!(store.panel(UniquePanel { slot: 7 }).is_none());
    stack.push(UniquePanel { slot: 7 });
    assert!(stack.button_at(&store, 3).is_none());
}

#[test]
fn panel_round_trip_keeps_buttons_and_metadata() {
    let raw = sample_panel();
    let mut store = ButtonStore::new();
    let live = make_panel_unique(&mut store, &raw);
    assert_eq!(store.len(), 3);
    assert_eq!(live.display_name, "Root");
    assert_eq!(live.data, json("{\"k\":1}"));
    assert_eq!(live.buttons.len(), 3);
    let raw1 = panel_to_raw(&store, &live);
    assert!(same_panel(&raw1, &raw));
    let live2 = make_panel_unique(&mut store, &raw1);
    assert_eq!(store.len(), 6);
    let raw2 = panel_to_raw(&store, &live2);
    assert!(same_panel(&raw2, &raw));
    assert!(same_panel(&copy_raw_panel(&raw2), &raw));
    for (_, h) in live.buttons.iter() {
        assert!(live2.buttons.values().all(|g| g.cell != h.cell));
    }
}

#[test]
fn write_through_one_frame_shows_in_every_frame() {
    let raw = sample_panel();
    let mut store = ButtonStore::new();
    let first = make_panel_unique(&mut store, &raw);
    let mut link = empty_panel();
    for (k, h) in first.buttons.iter() {
        link.buttons.insert(*k, *h);
    }
    let h = *first.buttons.get(&7).unwrap();
    let mut edited = store.button_to_raw(h);
    edited.insert_component("renderer", json("{\"color\":1}"));
    store.write(h, edited);
    let through_first = panel_to_raw(&store, &first);
    let through_link = panel_to_raw(&store, &link);
    assert_eq!(
        through_first.buttons.get(&7).unwrap().component("renderer"),
        Some(json("{\"color\":1}"))
    );
    assert_eq!(
        through_link.buttons.get(&7).unwrap().component("renderer"),
        Some(json("{\"color\":1}"))
    );
    assert_eq!(
        listing(through_link.buttons.get(&0).unwrap()),
        listing(raw.buttons.get(&0).unwrap())
    );
    let copy = make_panel_unique(&mut store, &raw);
    let g = *copy.buttons.get(&7).unwrap();
    assert_eq!(store.button_to_raw(g).component("renderer"), Some(json("{}")));
    let fresh = store.make_button_unique(Button::new());
    assert_eq!(fresh.cell, 6);
}
