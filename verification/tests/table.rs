use clawmesh::table::Table;

#[test]
fn entries_are_found_under_their_keys() {
    let mut t: Table<u64> = Table::new();
    assert!(t.is_empty());
    t.insert("a".into(), 1);
    t.insert("b".into(), 2);
    t.insert("a".into(), 3);
    assert_eq!(t.len(), 2);
    assert_eq!(t.get("a"), Some(&3));
    assert_eq!(t.get("b"), Some(&2));
    assert_eq!(t.get("c"), None);
    assert!(t.contains_key("b"));
    assert_eq!(t.remove("a"), Some(3));
    assert_eq!(t.remove("a"), None);
    assert_eq!(t.len(), 1);
    assert_eq!(t.key_at(0), "b");
    assert_eq!(*t.value_at(0), 2);
    let copy = t.clone();
    t.insert("b".into(), 9);
    assert_eq!(copy.get("b"), Some(&2));
}
