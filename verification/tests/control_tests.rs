use cloudflare_showcase::control::{storage_key_for, ControlMessage, ControlStore, ControlValue};

fn switch(name: &str, on: bool) -> ControlMessage {
    ControlMessage {
        control_name: name.to_string(),
        control_value: ControlValue::Bool(on),
        control_type: "checkbox".to_string(),
    }
}

fn text(name: &str, value: &str) -> ControlMessage {
    ControlMessage {
        control_name: name.to_string(),
        control_value: ControlValue::Text(value.to_string()),
        control_type: "text".to_string(),
    }
}

#[test]
fn storage_key_is_the_prefixed_name() {
    assert_eq!(storage_key_for("volume"), "control:volume");
    assert_eq!(storage_key_for(""), "control:");
    assert_eq!(storage_key_for("a:b"), "control:a:b");
}

#[test]
fn new_store_is_empty() {
    let store = ControlStore::new();
    assert_eq!(store.len(), 0);
    assert!(store.entries().is_empty());
    assert!(store.keys().is_empty());
    assert_eq!(store.get("volume"), None);
    assert_eq!(store.find("volume"), None);
}

#[test]
fn put_stores_under_the_name() {
    let mut store = ControlStore::new();
    store.put(switch("mute", true));
    store.put(text("title", "hello"));
    assert_eq!(store.len(), 2);
    assert_eq!(store.get("mute"), Some(&switch("mute", true)));
    assert_eq!(store.get("title"), Some(&text("title", "hello")));
    assert_eq!(store.get("other"), None);
    assert_eq!(store.find("title"), Some(1));
    assert_eq!(store.keys(), vec!["control:mute".to_string(), "control:title".to_string()]);
}

#[test]
fn last_writer_wins() {
    let mut store = ControlStore::new();
    store.put(switch("mute", true));
    store.put(text("title", "hello"));
    store.put(switch("mute", false));
    store.put(text("mute", "now a text"));
    assert_eq!(store.len(), 2);
    assert_eq!(store.get("mute"), Some(&text("mute", "now a text")));
    assert_eq!(store.entries(), &vec![text("mute", "now a text"), text("title", "hello")]);
}

#[test]
fn restore_replays_the_writes() {
    let store = ControlStore::restore(vec![
        switch("a", true),
        text("b", "one"),
        switch("a", false),
        text("c", "two"),
        text("b", "three"),
    ]);
    assert_eq!(store.len(), 3);
    assert_eq!(store.get("a"), Some(&switch("a", false)));
    assert_eq!(store.get("b"), Some(&text("b", "three")));
    assert_eq!(store.get("c"), Some(&text("c", "two")));
}

#[test]
fn clear_forgets_everything() {
    let mut store = ControlStore::restore(vec![switch("a", true), text("b", "one")]);
    store.clear();
    assert_eq!(store.len(), 0);
    assert_eq!(store.get("a"), None);
}

#[test]
fn clone_keeps_the_message() {
    let message = text("title", "hello");
    assert_eq!(message.clone(), message);
    let flag = switch("mute", true);
    assert_eq!(flag.clone(), flag);
}
