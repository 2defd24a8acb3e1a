use delivery_service::table::Table;

fn key(text: &str) -> String {
    String::from(text)
}

#[test]
fn new_table_is_empty() {
    let table: Table<u32> = Table::new();
    assert!(table.is_empty());
    assert_eq!(table.len(), 0);
    assert!(table.get(&key("a")).is_none());
    assert!(!table.contains_key(&key("a")));
    assert!(table.values().is_empty());
}

#[test]
fn insert_then_get() {
    let mut table = Table::new();
    assert_eq!(table.insert(key("a"), 1u32), None);
    assert_eq!(table.insert(key("b"), 2u32), None);
    assert_eq!(table.len(), 2);
    assert!(!table.is_empty());
    assert_eq!(table.get(&key("a")), Some(&1));
    assert_eq!(table.get(&key("b")), Some(&2));
    assert_eq!(table.get(&key("c")), None);
    assert!(table.contains_key(&key("b")));
}

#[test]
fn insert_replaces_the_value_under_the_same_key() {
    let mut table = Table::new();
    table.insert(key("a"), 1u32);
    table.insert(key("b"), 2u32);
    assert_eq!(table.insert(key("a"), 3u32), Some(1));
    assert_eq!(table.len(), 2);
    assert_eq!(table.get(&key("a")), Some(&3));
    assert_eq!(table.get(&key("b")), Some(&2));
    assert_eq!(table.values(), vec![&3, &2]);
}

#[test]
fn remove_takes_out_one_key_only() {
    let mut table = Table::new();
    table.insert(key("a"), 1u32);
    table.insert(key("b"), 2u32);
    table.insert(key("c"), 3u32);
    assert_eq!(table.remove(&key("b")), Some(2));
    assert_eq!(table.remove(&key("b")), None);
    assert_eq!(table.len(), 2);
    assert_eq!(table.get(&key("a")), Some(&1));
    assert_eq!(table.get(&key("b")), None);
    assert_eq!(table.get(&key("c")), Some(&3));
    assert_eq!(table.values(), vec![&1, &3]);
}

#[test]
fn keys_are_compared_as_whole_strings() {
    let mut table = Table::new();
    table.insert(key(""), 0u32);
    table.insert(key("alice"), 1u32);
    table.insert(key("alice "), 2u32);
    table.insert(key("Alice"), 3u32);
    assert_eq!(table.len(), 4);
    assert_eq!(table.get(&key("")), Some(&0));
    assert_eq!(table.get(&key("alice")), Some(&1));
    assert_eq!(table.get(&key("alice ")), Some(&2));
    assert_eq!(table.get(&key("Alice")), Some(&3));
}

#[test]
fn values_hands_out_each_value_once() {
    let mut table = Table::new();
    for (name, value) in [("x", 7u32), ("y", 7), ("z", 9)] {
        table.insert(key(name), value);
    }
    assert_eq!(table.values(), vec![&7, &7, &9]);
}
