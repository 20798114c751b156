use sync_team::listmap::ListMap;

fn s(text: &str) -> String {
    text.to_string()
}

#[test]
fn entries_keep_the_order_of_insertion() {
    let mut map: ListMap<String, u8> = ListMap::new();
    assert_eq!(map.len(), 0);
    map.insert(s("b"), 1);
    map.insert(s("a"), 2);
    map.insert(s("c"), 3);
    assert_eq!(map.len(), 3);
    assert_eq!(map.into_entries(), vec![(s("b"), 1), (s("a"), 2), (s("c"), 3)]);
}

#[test]
fn a_key_holds_what_was_stored_last() {
    let mut map: ListMap<String, u8> = ListMap::new();
    map.insert(s("b"), 1);
    map.insert(s("a"), 2);
    map.insert(s("b"), 9);
    assert_eq!(map.len(), 2);
    assert_eq!(map.get(&s("b")), Some(&9));
    assert_eq!(map.get(&s("a")), Some(&2));
    assert_eq!(map.get(&s("z")), None);
    assert!(map.contains_key(&s("a")));
    assert!(!map.contains_key(&s("z")));
    assert_eq!(map.into_entries(), vec![(s("b"), 9), (s("a"), 2)]);
}

#[test]
fn removing_takes_the_entry_out() {
    let mut map: ListMap<u64, String> = ListMap::new();
    map.insert(1, s("one"));
    map.insert(2, s("two"));
    map.insert(3, s("three"));
    assert_eq!(map.remove(&2), Some(s("two")));
    assert_eq!(map.remove(&2), None);
    assert_eq!(map.remove(&7), None);
    assert_eq!(map.len(), 2);
    assert_eq!(map.into_entries(), vec![(1, s("one")), (3, s("three"))]);
}

#[test]
fn pairs_are_keys() {
    let mut map: ListMap<(String, String), u8> = ListMap::new();
    map.insert((s("a"), s("b")), 1);
    map.insert((s("a"), s("c")), 2);
    map.insert((s("b"), s("b")), 3);
    assert_eq!(map.remove(&(s("a"), s("c"))), Some(2));
    assert_eq!(map.get(&(s("b"), s("b"))), Some(&3));
    assert_eq!(map.get(&(s("b"), s("a"))), None);
}
