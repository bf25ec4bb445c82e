use lib::text_map::TextMap;

#[test]
fn insert_get_and_replace() {
    let mut m: TextMap<u32> = TextMap::new();
    assert!(!m.contains_key(&"a".to_string()));
    m.insert("a".to_string(), 1);
    m.insert("b".to_string(), 2);
    m.insert("a".to_string(), 3);
    assert_eq!(m.get(&"a".to_string()), Some(&3));
    assert_eq!(m.get(&"b".to_string()), Some(&2));
    assert_eq!(m.get(&"c".to_string()), None);
}

#[test]
fn take_removes_only_its_key() {
    let mut m: TextMap<u32> = TextMap::new();
    m.insert("a".to_string(), 1);
    m.insert("b".to_string(), 2);
    m.insert("c".to_string(), 3);
    assert_eq!(m.take(&"a".to_string()), Some(1));
    assert_eq!(m.take(&"a".to_string()), None);
    assert!(!m.contains_key(&"a".to_string()));
    assert_eq!(m.get(&"b".to_string()), Some(&2));
    assert_eq!(m.get(&"c".to_string()), Some(&3));
}
