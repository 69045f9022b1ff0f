use catalog_meta::store::{StoreError, StoreKey, VersionedStore};

#[test]
fn put_new_then_conflict() {
    let mut s: VersionedStore<u32> = VersionedStore::new();
    let v1 = s.put_new(StoreKey::new(0, "a", ""), 10).unwrap();
    assert_eq!(v1, 1);
    assert_eq!(s.put_new(StoreKey::new(0, "a", ""), 11), Err(StoreError::Conflict));
    let v2 = s.put_new(StoreKey::new(0, "a", "h"), 12).unwrap();
    assert_eq!(v2, 2);
    let e = s.get(&StoreKey::new(0, "a", "")).unwrap();
    assert_eq!(e.data, 10);
    assert_eq!(e.seq, 1);
    assert_eq!(s.len(), 2);
}

#[test]
fn put_if_version_checks_version() {
    let mut s: VersionedStore<u32> = VersionedStore::new();
    let k = StoreKey::new(7, "t", "");
    let v1 = s.put_new(StoreKey::new(7, "t", ""), 1).unwrap();
    assert_eq!(s.put_if_version(StoreKey::new(7, "t", ""), 2, v1 + 5), Err(StoreError::Conflict));
    let v2 = s.put_if_version(StoreKey::new(7, "t", ""), 2, v1).unwrap();
    assert!(v2 > v1);
    assert_eq!(s.get(&k).unwrap().data, 2);
    assert_eq!(s.put_if_version(StoreKey::new(8, "t", ""), 3, v2), Err(StoreError::Conflict));
    // The loser of a race holds the old version and is refused.
    assert_eq!(s.put_if_version(StoreKey::new(7, "t", ""), 9, v1), Err(StoreError::Conflict));
}

#[test]
fn delete_if_version_checks_version() {
    let mut s: VersionedStore<u32> = VersionedStore::new();
    let k = StoreKey::new(0, "x", "");
    let v = s.put_new(StoreKey::new(0, "x", ""), 1).unwrap();
    assert_eq!(s.delete_if_version(&k, v + 1), Err(StoreError::Conflict));
    assert_eq!(s.delete_if_version(&k, v), Ok(()));
    assert!(s.get(&k).is_none());
    assert_eq!(s.delete_if_version(&k, v), Err(StoreError::Conflict));
    assert_eq!(s.len(), 0);
}

#[test]
fn listing_covers_all_keys() {
    let mut s: VersionedStore<u32> = VersionedStore::new();
    for (i, n) in ["a", "b", "c"].iter().enumerate() {
        s.put_new(StoreKey::new(0, n, ""), i as u32).unwrap();
    }
    s.delete_if_version(&StoreKey::new(0, "b", ""), 2).unwrap();
    assert_eq!(s.len(), 2);
    let names: Vec<String> = (0..s.len()).map(|i| s.entry_at(i).key.name.clone()).collect();
    assert!(names.contains(&"a".to_string()));
    assert!(names.contains(&"c".to_string()));
}

#[test]
fn key_equality() {
    assert!(StoreKey::new(1, "a", "b").same(&StoreKey::new(1, "a", "b")));
    assert!(!StoreKey::new(1, "a", "b").same(&StoreKey::new(2, "a", "b")));
    assert!(!StoreKey::new(1, "a", "b").same(&StoreKey::new(1, "a", "c")));
}
