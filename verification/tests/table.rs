use std::collections::BTreeMap;

use cs2_dumper::table::{chars_of, precedes, NameMap};

fn name(s: &str) -> String {
    s.to_string()
}

#[test]
fn new_map_is_empty() {
    let map: NameMap<u32> = NameMap::new();
    assert_eq!(map.len(), 0);
    assert_eq!(map.get(&name("dwFoo")), None);
    assert!(!map.contains_key(&name("dwFoo")));
    assert_eq!(map.index_of(&name("dwFoo")), None);
}

#[test]
fn keys_stand_in_ascending_order() {
    let mut map = NameMap::new();
    map.insert(name("zeta"), 1u32);
    map.insert(name("alpha"), 2);
    map.insert(name("mid"), 3);
    assert_eq!(map.len(), 3);
    assert_eq!(map.key_at(0), "alpha");
    assert_eq!(map.key_at(1), "mid");
    assert_eq!(map.key_at(2), "zeta");
    assert_eq!(*map.value_at(0), 2);
    assert_eq!(*map.value_at(1), 3);
    assert_eq!(*map.value_at(2), 1);
    assert_eq!(map.index_of(&name("mid")), Some(1));
    assert_eq!(map.rank_of(&name("mid")), 1);
    assert_eq!(map.rank_of(&name("a")), 0);
    assert_eq!(map.rank_of(&name("n")), 2);
    assert_eq!(map.rank_of(&name("zz")), 3);
}

#[test]
fn insert_replaces_the_value_of_a_key_in_place() {
    let mut map = NameMap::new();
    map.insert(name("dwFoo"), 1u32);
    map.insert(name("dwBar"), 2);
    map.insert(name("dwFoo"), 3);
    assert_eq!(map.len(), 2);
    assert_eq!(map.key_at(0), "dwBar");
    assert_eq!(map.key_at(1), "dwFoo");
    assert_eq!(map.get(&name("dwFoo")), Some(&3));
    assert_eq!(map.get(&name("dwBar")), Some(&2));
    assert!(map.contains_key(&name("dwBar")));
    assert!(!map.contains_key(&name("dwbar")));
}

#[test]
fn precedes_is_the_order_of_strings() {
    let samples = [
        "", "a", "A", "aa", "ab", "b", "B", "0", "123_TestPattern", "another-pattern!",
        "dwViewMatrix", "dwViewMatri", "dwViewMatrix_", "_", "z", "\u{e9}", "e\u{301}",
        "\u{10ffff}", "\u{ffff}", "\u{7f}", "\u{80}", "~", "client.dll", "engine-2.dll",
    ];
    for a in samples.iter() {
        for b in samples.iter() {
            assert_eq!(precedes(a, b), a < b, "{:?} before {:?}", a, b);
        }
    }
}

#[test]
fn keys_come_out_as_a_sorted_map_gives_them() {
    let names = [
        "dwViewMatrix", "123_TestPattern", "another-pattern!", "Zed", "zed", "", "_", "\u{e9}t\u{e9}",
        "dwViewMatrix_", "dw", "\u{10000}", "\u{ffff}",
    ];
    let mut map = NameMap::new();
    let mut sorted = BTreeMap::new();
    for (i, n) in names.iter().enumerate() {
        map.insert(name(n), i as u32);
        sorted.insert(name(n), i as u32);
    }
    map.insert(name("dw"), 99);
    sorted.insert(name("dw"), 99);
    assert_eq!(map.len(), sorted.len());
    for (i, (key, value)) in sorted.iter().enumerate() {
        assert_eq!(map.key_at(i), key);
        assert_eq!(map.value_at(i), value);
    }
}

#[test]
fn characters_of_a_string() {
    assert_eq!(chars_of(""), Vec::<char>::new());
    assert_eq!(chars_of("a\u{e9}\u{10000}"), vec!['a', '\u{e9}', '\u{10000}']);
}

#[test]
fn nested_maps_keep_equal_names_apart() {
    let mut a = NameMap::new();
    a.insert(name("dwFoo"), 1u32);
    let mut b = NameMap::new();
    b.insert(name("dwFoo"), 2u32);
    let mut outer = NameMap::new();
    outer.insert(name("a.dll"), a);
    outer.insert(name("b.dll"), b);
    assert_eq!(outer.get(&name("a.dll")).unwrap().get(&name("dwFoo")), Some(&1));
    assert_eq!(outer.get(&name("b.dll")).unwrap().get(&name("dwFoo")), Some(&2));
}
