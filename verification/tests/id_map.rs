use habitat_swim::id_map::IdMap;

#[test]
fn id_map_starts_empty() {
    let m: IdMap<u32> = IdMap::new();
    assert_eq!(m.len(), 0);
    assert!(m.get(&"a".to_string()).is_none());
    assert!(!m.contains_key(&"a".to_string()));
    assert!(m.values().is_empty());
}

#[test]
fn id_map_insert_get_replace() {
    let mut m: IdMap<u32> = IdMap::new();
    assert_eq!(m.insert("a".to_string(), 1), None);
    assert_eq!(m.insert("b".to_string(), 2), None);
    assert_eq!(m.insert("a".to_string(), 3), Some(1));
    assert_eq!(m.len(), 2);
    assert_eq!(m.get(&"a".to_string()), Some(&3));
    assert_eq!(m.get(&"b".to_string()), Some(&2));
    assert!(m.contains_key(&"b".to_string()));
    assert!(!m.contains_key(&"c".to_string()));
    let mut values: Vec<u32> = m.values().into_iter().map(|v| *v).collect();
    values.sort();
    assert_eq!(values, vec![2, 3]);
}
