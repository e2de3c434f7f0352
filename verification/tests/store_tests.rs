use carlink::store::VolatileRecordStore;

#[test]
fn put_get_remove() {
    let mut s: VolatileRecordStore<String> = VolatileRecordStore::new();
    assert!(s.get(&"k".to_string()).is_none());
    s.put("k".to_string(), "v1".to_string(), 100);
    let (created, v) = s.get(&"k".to_string()).unwrap();
    assert_eq!(created, 100);
    assert_eq!(v, "v1");
    s.remove(&"k".to_string());
    assert!(s.get(&"k".to_string()).is_none());
    // Removing an absent key is a no-op.
    s.remove(&"k".to_string());
}

#[test]
fn put_supersedes() {
    let mut s: VolatileRecordStore<String> = VolatileRecordStore::new();
    s.put("k".to_string(), "v1".to_string(), 100);
    s.put("k".to_string(), "v2".to_string(), 150);
    let (created, v) = s.get(&"k".to_string()).unwrap();
    assert_eq!(created, 150);
    assert_eq!(v, "v2");
    assert_eq!(s.len(), 1);
}

#[test]
fn sweep_evicts_only_stale_records() {
    let mut s: VolatileRecordStore<String> = VolatileRecordStore::new();
    s.put("old".to_string(), "a".to_string(), 100);
    s.put("edge".to_string(), "b".to_string(), 170);
    s.put("fresh".to_string(), "c".to_string(), 190);
    // At time 200 with a bound of 30: age 100 goes, ages 30 and 10 stay.
    s.sweep(200, 30);
    assert!(s.get(&"old".to_string()).is_none());
    assert!(s.get(&"edge".to_string()).is_some());
    assert!(s.get(&"fresh".to_string()).is_some());
    assert_eq!(s.len(), 2);
}

#[test]
fn sweep_keeps_values_intact() {
    let mut s: VolatileRecordStore<String> = VolatileRecordStore::new();
    s.put("k".to_string(), "payload".to_string(), 100);
    s.sweep(110, 60);
    let (created, v) = s.get(&"k".to_string()).unwrap();
    assert_eq!(created, 100);
    assert_eq!(v, "payload");
}
