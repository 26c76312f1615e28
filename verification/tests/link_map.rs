use os::fs::link_map::LinkMap;

#[test]
fn empty_map_has_nothing() {
    let m: LinkMap<u64, u64> = LinkMap::new();
    assert_eq!(m.get(&1), None);
}

#[test]
fn get_after_insert_gives_the_value() {
    let mut m = LinkMap::new();
    m.insert(7u64, 70u64);
    m.insert(8, 80);
    assert_eq!(m.get(&7), Some(&70));
    assert_eq!(m.get(&8), Some(&80));
    assert_eq!(m.get(&9), None);
}

#[test]
fn insert_overwrites_an_existing_key() {
    let mut m = LinkMap::new();
    m.insert(1u64, String::from("a"));
    m.insert(2, String::from("b"));
    m.insert(1, String::from("c"));
    assert_eq!(m.get(&1).map(|s| s.as_str()), Some("c"));
    assert_eq!(m.get(&2).map(|s| s.as_str()), Some("b"));
    // the overwritten key keeps its place: removing an absent key drops the first entry
    assert_eq!(m.remove(&99), Some(String::from("c")));
    assert_eq!(m.get(&1), None);
    assert_eq!(m.get(&2).map(|s| s.as_str()), Some("b"));
}

#[test]
fn remove_present_key_gives_back_its_value() {
    let mut m = LinkMap::new();
    m.insert(1u64, 10u64);
    m.insert(2, 20);
    m.insert(3, 30);
    assert_eq!(m.remove(&2), Some(20));
    assert_eq!(m.get(&2), None);
    assert_eq!(m.get(&1), Some(&10));
    assert_eq!(m.get(&3), Some(&30));
}

#[test]
fn remove_absent_key_drops_the_first_entry() {
    let mut m = LinkMap::new();
    m.insert(5u64, 50u64);
    m.insert(6, 60);
    assert_eq!(m.remove(&42), Some(50));
    assert_eq!(m.get(&5), None);
    assert_eq!(m.get(&6), Some(&60));
}

#[test]
fn remove_from_empty_map_gives_nothing() {
    let mut m: LinkMap<u64, u64> = LinkMap::new();
    assert_eq!(m.remove(&1), None);
    assert_eq!(m.get(&1), None);
}

#[test]
fn insert_then_remove_restores_the_map() {
    let mut m = LinkMap::new();
    m.insert(1u64, 11u64);
    m.insert(2, 22);
    m.remove(&2);
    assert_eq!(m.get(&1), Some(&11));
    assert_eq!(m.get(&2), None);
    m.insert(2, 23);
    assert_eq!(m.get(&2), Some(&23));
}

#[test]
fn other_keys_are_untouched_by_insert() {
    let mut m = LinkMap::new();
    for k in 0u64..10 {
        m.insert(k, k * 100);
    }
    m.insert(4, 1);
    for k in 0u64..10 {
        let expected = if k == 4 { 1 } else { k * 100 };
        assert_eq!(m.get(&k), Some(&expected));
    }
}
