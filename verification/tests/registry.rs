use tauri_plugin_hid::error::Error;
use tauri_plugin_hid::registry::Registry;

#[test]
fn new_registry_has_no_session() {
    let registry: Registry<u32> = Registry::new();
    assert_eq!(registry.len(), 0);
    assert!(!registry.contains("a"));
    assert!(matches!(registry.get("a"), Err(Error::HidDeviceNotFoundInOpenDevices)));
}

#[test]
fn second_open_of_a_path_is_refused_until_it_is_closed() {
    let mut registry: Registry<u32> = Registry::new();
    assert!(registry.reserve("P").is_ok());
    assert!(matches!(registry.reserve("P"), Err(Error::HidDeviceAlreadyOpen)));
    registry.insert("P", 7);
    assert!(matches!(registry.reserve("P"), Err(Error::HidDeviceAlreadyOpen)));
    assert_eq!(registry.get("P").ok(), Some(&7));
    assert_eq!(registry.remove("P"), Some(7));
    assert!(registry.reserve("P").is_ok());
    registry.insert("P", 8);
    assert_eq!(registry.get("P").ok(), Some(&8));
}

#[test]
fn a_reservation_has_no_handle_yet() {
    let mut registry: Registry<u32> = Registry::new();
    registry.reserve("P").unwrap();
    assert!(registry.contains("P"));
    assert_eq!(registry.len(), 1);
    assert!(matches!(registry.get("P"), Err(Error::HidDeviceNotFoundInOpenDevices)));
    assert_eq!(registry.remove("P"), None);
    assert!(!registry.contains("P"));
    assert_eq!(registry.len(), 0);
}

#[test]
fn a_failed_open_releases_the_key() {
    let mut registry: Registry<u32> = Registry::new();
    registry.reserve("P").unwrap();
    assert_eq!(registry.remove("P"), None);
    assert!(registry.reserve("P").is_ok());
}

#[test]
fn unknown_key_is_not_found_and_closing_it_changes_nothing() {
    let mut registry: Registry<u32> = Registry::new();
    registry.insert("A", 1);
    assert!(matches!(registry.get("B"), Err(Error::HidDeviceNotFoundInOpenDevices)));
    assert_eq!(registry.remove("B"), None);
    assert_eq!(registry.len(), 1);
    assert_eq!(registry.get("A").ok(), Some(&1));
    assert_eq!(registry.remove("A"), Some(1));
    assert!(matches!(registry.get("A"), Err(Error::HidDeviceNotFoundInOpenDevices)));
    assert_eq!(registry.remove("A"), None);
}

#[test]
fn sessions_do_not_touch_each_other() {
    let mut registry: Registry<u32> = Registry::new();
    registry.reserve("A").unwrap();
    registry.insert("A", 1);
    registry.reserve("B").unwrap();
    registry.insert("B", 2);
    assert_eq!(registry.get("A").ok(), Some(&1));
    assert_eq!(registry.remove("B"), Some(2));
    assert_eq!(registry.get("A").ok(), Some(&1));
    assert!(matches!(registry.reserve("A"), Err(Error::HidDeviceAlreadyOpen)));
    assert!(registry.reserve("B").is_ok());
}

#[test]
fn insert_replaces_the_handle() {
    let mut registry: Registry<u32> = Registry::new();
    registry.insert("A", 1);
    registry.insert("A", 2);
    assert_eq!(registry.len(), 1);
    assert_eq!(registry.get("A").ok(), Some(&2));
}
