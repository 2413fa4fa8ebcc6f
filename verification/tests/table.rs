use tauri_plugin_hid::table::Table;

fn key(text: &str) -> String {
    text.to_string()
}

#[test]
fn new_table_is_empty() {
    let table: Table<u32> = Table::new();
    assert_eq!(table.len(), 0);
    assert_eq!(table.position(&key("a")), None);
    assert!(!table.contains_key(&key("a")));
    assert_eq!(table.get(&key("a")), None);
}

#[test]
fn insert_then_get() {
    let mut table: Table<u32> = Table::new();
    assert_eq!(table.insert(key("a"), 1), None);
    assert_eq!(table.insert(key("b"), 2), None);
    assert_eq!(table.len(), 2);
    assert_eq!(table.get(&key("a")), Some(&1));
    assert_eq!(table.get(&key("b")), Some(&2));
    assert_eq!(table.get(&key("c")), None);
    assert_eq!(table.position(&key("b")), Some(1));
    assert_eq!(table.key_at(0), "a");
    assert_eq!(*table.value_at(1), 2);
}

#[test]
fn insert_on_a_taken_key_displaces_and_keeps_the_place() {
    let mut table: Table<u32> = Table::new();
    table.insert(key("a"), 1);
    table.insert(key("b"), 2);
    table.insert(key("c"), 3);
    assert_eq!(table.insert(key("b"), 20), Some(2));
    assert_eq!(table.len(), 3);
    assert_eq!(table.key_at(0), "a");
    assert_eq!(table.key_at(1), "b");
    assert_eq!(table.key_at(2), "c");
    assert_eq!(*table.value_at(1), 20);
    assert_eq!(table.get(&key("b")), Some(&20));
}

#[test]
fn remove_keeps_the_order_of_the_rest() {
    let mut table: Table<u32> = Table::new();
    table.insert(key("a"), 1);
    table.insert(key("b"), 2);
    table.insert(key("c"), 3);
    assert_eq!(table.remove(&key("b")), Some(2));
    assert_eq!(table.remove(&key("b")), None);
    assert_eq!(table.len(), 2);
    assert_eq!(table.key_at(0), "a");
    assert_eq!(table.key_at(1), "c");
    assert_eq!(table.get(&key("c")), Some(&3));
    assert!(!table.contains_key(&key("b")));
}

#[test]
fn clear_forgets_everything() {
    let mut table: Table<u32> = Table::new();
    table.insert(key("a"), 1);
    table.clear();
    assert_eq!(table.len(), 0);
    assert_eq!(table.get(&key("a")), None);
    assert_eq!(table.insert(key("a"), 5), None);
    assert_eq!(table.get(&key("a")), Some(&5));
}

#[test]
fn keys_differ_by_every_character() {
    let mut table: Table<u32> = Table::new();
    table.insert(key("/dev/hidraw1"), 1);
    table.insert(key("/dev/hidraw10"), 10);
    table.insert(key(""), 0);
    assert_eq!(table.get(&key("/dev/hidraw1")), Some(&1));
    assert_eq!(table.get(&key("/dev/hidraw10")), Some(&10));
    assert_eq!(table.get(&key("")), Some(&0));
    assert_eq!(table.get(&key("/dev/hidraw")), None);
    assert_eq!(table.get(&key("/DEV/HIDRAW1")), None);
}
