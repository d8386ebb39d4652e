use humphrey::server::cache::Cache;

#[test]
fn what_is_set_is_found_under_its_key() {
    let mut cache = Cache::new(10);
    assert_eq!(cache.limit(), 10);
    assert!(cache.get("/a").is_none());
    cache.set("/a", b"12345".to_vec(), "text/plain");
    let entry = cache.get("/a").unwrap();
    assert_eq!(entry.data, b"12345".to_vec());
    assert_eq!(entry.mime, "text/plain");
    assert_eq!(entry.key, "/a");
    assert_eq!(cache.size(), 5);
    assert_eq!(cache.len(), 1);
}

#[test]
fn the_oldest_entries_leave_until_the_new_one_fits() {
    let mut cache = Cache::new(10);
    cache.set("/a", vec![1; 4], "a");
    cache.set("/b", vec![2; 4], "b");
    cache.set("/c", vec![3; 2], "c");
    assert_eq!(cache.size(), 10);
    cache.set("/d", vec![4; 5], "d");
    assert!(cache.get("/a").is_none());
    assert!(cache.get("/b").is_none());
    assert!(cache.get("/c").is_some());
    assert!(cache.get("/d").is_some());
    assert_eq!(cache.size(), 7);
    assert_eq!(cache.len(), 2);
}

#[test]
fn an_entry_larger_than_the_bound_is_never_admitted() {
    let mut cache = Cache::new(10);
    cache.set("/a", vec![1; 4], "a");
    cache.set("/big", vec![0; 11], "big");
    assert!(cache.get("/big").is_none());
    assert!(cache.get("/a").is_some());
    assert_eq!(cache.size(), 4);
    cache.set("/full", vec![0; 10], "full");
    assert!(cache.get("/full").is_some());
    assert!(cache.get("/a").is_none());
    assert_eq!(cache.size(), 10);
}

#[test]
fn reading_an_entry_does_not_keep_it_longer() {
    let mut cache = Cache::new(8);
    cache.set("/a", vec![1; 4], "a");
    cache.set("/b", vec![2; 4], "b");
    assert!(cache.get("/a").is_some());
    cache.set("/c", vec![3; 4], "c");
    assert!(cache.get("/a").is_none());
    assert!(cache.get("/b").is_some());
    assert!(cache.get("/c").is_some());
}

#[test]
fn setting_a_key_again_replaces_its_entry() {
    let mut cache = Cache::new(8);
    cache.set("/a", vec![1; 4], "old");
    cache.set("/b", vec![2; 2], "b");
    cache.set("/a", vec![9; 5], "new");
    assert_eq!(cache.len(), 2);
    assert_eq!(cache.size(), 7);
    assert_eq!(cache.get("/a").unwrap().mime, "new");
    assert_eq!(cache.get("/a").unwrap().data, vec![9; 5]);
    cache.set("/c", vec![3; 2], "c");
    assert!(cache.get("/b").is_none());
    assert!(cache.get("/a").is_some());
}

#[test]
fn a_cache_with_a_bound_of_zero_takes_nothing() {
    let mut cache = Cache::new(0);
    cache.set("/a", vec![1], "a");
    assert!(cache.get("/a").is_none());
    cache.set("/empty", Vec::new(), "e");
    assert!(cache.get("/empty").is_none());
    assert_eq!(cache.len(), 0);
    assert_eq!(cache.size(), 0);
    let mut small = Cache::new(1);
    small.set("/empty", Vec::new(), "e");
    assert!(small.get("/empty").is_some());
    assert_eq!(small.size(), 0);
}
