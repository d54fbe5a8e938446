use capture_gui::keyed::KeyedMap;

#[test]
fn insert_get_replace_remove() {
    let mut m: KeyedMap<u64> = KeyedMap::new();
    assert_eq!(m.len(), 0);
    m.insert("a".to_string(), 1);
    assert_eq!(m.len(), 1);
    m.insert("b".to_string(), 2);
    m.insert("a".to_string(), 3);
    assert_eq!(m.len(), 2);
    assert_eq!(m.get("a"), Some(&3));
    assert_eq!(m.get("b"), Some(&2));
    assert_eq!(m.get("c"), None);
    assert!(m.contains("b"));
    m.remove("a");
    assert!(!m.contains("a"));
    assert_eq!(m.len(), 1);
    m.remove("zzz");
    assert_eq!(m.len(), 1);
}
