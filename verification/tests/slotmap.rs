use shader_store::util::cell_vec::CellVec;
use shader_store::util::slotmap::{SlotKey, SlotMap, VersionKey};

#[test]
fn a_new_map_has_no_entries() {
    let map: SlotMap<u32, usize> = SlotMap::new();
    assert_eq!(map.entries(), 0);
    assert!(map.get(0).is_none());
    assert!(!map.is_present(0));
}

#[test]
fn with_capacity_reserves_room() {
    let map = SlotMap::<u8, u32>::with_capacity(16);
    assert_eq!(map.entries(), 0);
    assert!(map.capacity() >= 16);
}

#[test]
fn capacity_covers_the_entries() {
    let mut map: SlotMap<u32, usize> = SlotMap::new();
    for i in 0..40u32 {
        map.insert(i);
    }
    assert_eq!(map.entries(), 40);
    assert!(map.capacity() >= 40);
}

#[test]
fn insert_returns_consecutive_indices() {
    let mut map: SlotMap<&str, usize> = SlotMap::new();
    assert_eq!(map.insert("a"), 0);
    assert_eq!(map.insert("b"), 1);
    assert_eq!(map.insert("c"), 2);
    assert_eq!(map.entries(), 3);
    assert_eq!(map.get(1), Some(&"b"));
}

#[test]
fn remove_returns_the_value_and_frees_the_slot() {
    let mut map: SlotMap<&str, usize> = SlotMap::new();
    let a = map.insert("a");
    let b = map.insert("b");
    assert_eq!(map.remove(a), Some("a"));
    assert_eq!(map.remove(a), None);
    assert!(!map.is_present(a));
    assert!(map.is_present(b));
    assert_eq!(map.get(a), None);
    assert_eq!(map.entries(), 2);
    assert_eq!(map.remove(5), None);
}

#[test]
fn the_slot_freed_last_is_used_first() {
    let mut map: SlotMap<u32, usize> = SlotMap::new();
    let keys: Vec<usize> = (0..4).map(|i| map.insert(i)).collect();
    map.remove(keys[1]);
    map.remove(keys[3]);
    map.remove(keys[0]);
    assert_eq!(map.insert(10), 0);
    assert_eq!(map.insert(11), 3);
    assert_eq!(map.insert(12), 1);
    assert_eq!(map.insert(13), 4);
    assert_eq!(map.entries(), 5);
    assert_eq!(map.get(3), Some(&11));
}

#[test]
fn a_versioned_key_finds_nothing_after_reuse() {
    let mut map: SlotMap<&str, VersionKey> = SlotMap::new();
    let old = map.insert("first");
    assert_eq!(old.index(), 0);
    assert_eq!(old.version(), 0);
    assert_eq!(map.remove(old), Some("first"));
    let new = map.insert("second");
    assert_eq!(new.index(), 0);
    assert_eq!(new.version(), 1);
    assert_ne!(old, new);
    assert_eq!(map.get(old), None);
    assert!(!map.is_present(old));
    assert_eq!(map.remove(old), None);
    assert_eq!(map.get(new), Some(&"second"));
    assert_eq!(map.entries(), 1);
}

#[test]
fn an_unversioned_key_finds_the_new_value() {
    let mut map: SlotMap<&str, u16> = SlotMap::new();
    let old = map.insert("first");
    map.remove(old);
    let new = map.insert("second");
    assert_eq!(old, new);
    assert_eq!(map.get(old), Some(&"second"));
}

#[test]
fn slot_map_get_mut_writes_through() {
    let mut map: SlotMap<String, VersionKey> = SlotMap::new();
    let key = map.insert("a".to_string());
    map.get_mut(key).unwrap().push('b');
    assert_eq!(map.get(key).map(|s| s.as_str()), Some("ab"));
    let stale = VersionKey::new_version(0, 9);
    assert!(map.get_mut(stale).is_none());
}

#[test]
fn iter_walks_the_values_in_slot_order() {
    let mut map: SlotMap<u32, usize> = SlotMap::new();
    for i in 0..5u32 {
        map.insert(i * 10);
    }
    map.remove(1);
    map.remove(3);
    let mut it = map.iter();
    let mut seen = Vec::new();
    while let Some(v) = it.next() {
        seen.push(*v);
    }
    assert_eq!(seen, vec![0, 20, 40]);
    assert!(it.next().is_none());
}

#[test]
fn keys_report_their_limits() {
    assert_eq!(<u8 as SlotKey>::max(), 255);
    assert_eq!(<u16 as SlotKey>::max(), 65535);
    assert_eq!(<u32 as SlotKey>::max(), u32::MAX as usize);
    assert_eq!(<usize as SlotKey>::max(), usize::MAX);
    assert_eq!(<VersionKey as SlotKey>::max(), u32::MAX as usize);
    assert_eq!(<u8 as SlotKey>::new(7), 7u8);
    assert_eq!(<u8 as SlotKey>::new_version(7, 3).version(), 0);
    assert_eq!(7u32.next_version(), 7u32);
    assert_eq!(<u16 as SlotKey>::index(&9), 9);
}

#[test]
fn a_version_key_advances_and_wraps() {
    let key = VersionKey::new(3);
    assert_eq!((key.index(), key.version()), (3, 0));
    let next = key.next_version();
    assert_eq!((next.index(), next.version()), (3, 1));
    let last = VersionKey::new_version(3, u32::MAX);
    assert_eq!(last.next_version().version(), 0);
    assert_eq!(VersionKey::default(), VersionKey::new(0));
}

#[test]
fn a_small_key_type_fills_up() {
    let mut map: SlotMap<u32, u8> = SlotMap::new();
    for i in 0..255u32 {
        assert_eq!(map.insert(i) as u32, i);
    }
    assert_eq!(map.entries(), 255);
    map.remove(200);
    assert_eq!(map.insert(1000), 200);
}

#[test]
fn cell_vec_is_a_stack_of_copies() {
    let mut v: CellVec<String> = CellVec::new();
    assert_eq!(v.len(), 0);
    assert_eq!(v.pop(), None);
    v.push("a".to_string());
    v.push("b".to_string());
    assert_eq!(v.get(0), "a");
    assert_eq!(v.get(1), "b");
    assert_eq!(v.len(), 2);
    assert_eq!(v.pop(), Some("b".to_string()));
    v.clear();
    assert_eq!(v.len(), 0);
    assert_eq!(v.pop(), None);
}
