use wasmcloud_test_util::value_map::ValueMap;

fn map(entries: &[(&str, &str)]) -> ValueMap {
    let mut map = ValueMap::new();
    for (key, value) in entries {
        map.insert(key.to_string(), value.to_string());
    }
    map
}

#[test]
fn entries_stand_in_the_order_of_their_keys() {
    let m = map(&[("b", "2"), ("a", "1"), ("ab", "3"), ("", "0"), ("é", "5"), ("Z", "4")]);
    let keys: Vec<&str> = m.pairs().iter().map(|e| e.0.as_str()).collect();
    assert_eq!(keys, vec!["", "Z", "a", "ab", "b", "é"]);
    assert!(!m.is_empty());
    assert!(ValueMap::new().is_empty());
}

#[test]
fn last_value_of_a_key_stays() {
    let m = map(&[("a", "1"), ("b", "2"), ("a", "3")]);
    assert_eq!(m.get("a").map(|v| v.as_str()), Some("3"));
    assert_eq!(m.get("b").map(|v| v.as_str()), Some("2"));
    assert_eq!(m.get("c"), None);
    assert_eq!(m.get("B"), None);
    assert_eq!(m.pairs().len(), 2);
}

#[test]
fn same_contents_are_stored_alike() {
    let a = map(&[("x", "1"), ("y", "2"), ("z", "3")]);
    let b = map(&[("z", "3"), ("y", "0"), ("x", "1"), ("y", "2")]);
    assert!(a.same_as(&b));
    assert_eq!(a.pairs(), b.pairs());
    assert!(a.same_as(&a.clone()));
    assert!(!a.same_as(&map(&[("x", "1"), ("y", "2"), ("z", "4")])));
    assert!(!a.same_as(&map(&[("x", "1"), ("y", "2")])));
    assert!(!a.same_as(&map(&[("x", "1"), ("y", "2"), ("w", "3")])));
}

#[test]
fn many_keys_are_found_again() {
    let mut m = ValueMap::new();
    for i in 0..200u32 {
        let k = (i * 37) % 200;
        m.insert(format!("k{}", k), format!("v{}", k));
    }
    assert_eq!(m.pairs().len(), 200);
    for i in 0..200u32 {
        assert_eq!(m.get(&format!("k{}", i)), Some(&format!("v{}", i)));
    }
    let mut sorted = m.pairs().clone();
    sorted.sort();
    assert_eq!(m.pairs(), &sorted);
}
