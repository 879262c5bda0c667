use tunnel::registry::ConnectionRegistry;

#[test]
fn get_after_insert_returns_inserted_handle() {
    let mut r = ConnectionRegistry::new();
    assert_eq!(r.insert("a".to_string(), 1), None);
    assert_eq!(r.insert("b".to_string(), 2), None);
    assert_eq!(r.get(&"a".to_string()), Some(&1));
    assert_eq!(r.get(&"b".to_string()), Some(&2));
    assert_eq!(r.get(&"c".to_string()), None);
}

#[test]
fn insert_replaces_and_returns_previous() {
    let mut r = ConnectionRegistry::new();
    r.insert("a".to_string(), 1);
    assert_eq!(r.insert("a".to_string(), 5), Some(1));
    assert_eq!(r.get(&"a".to_string()), Some(&5));
    assert_eq!(r.remove(&"a".to_string()), Some(5));
    assert!(!r.contains_key(&"a".to_string()));
}

#[test]
fn remove_forgets_only_that_id() {
    let mut r = ConnectionRegistry::new();
    r.insert("a".to_string(), 1);
    r.insert("b".to_string(), 2);
    assert_eq!(r.remove(&"a".to_string()), Some(1));
    assert_eq!(r.remove(&"a".to_string()), None);
    assert_eq!(r.get(&"a".to_string()), None);
    assert_eq!(r.get(&"b".to_string()), Some(&2));
    assert!(r.contains_key(&"b".to_string()));
}
