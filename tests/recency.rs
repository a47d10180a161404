use hbot::recency::RecencySet;

fn s(x: &str) -> String {
    x.to_string()
}

#[test]
fn new_set_is_empty() {
    let set = RecencySet::new();
    assert!(set.is_empty());
    assert_eq!(set.len(), 0);
    assert!(!set.contains(&s("alice")));
}

#[test]
fn inserted_ids_are_members_until_clear() {
    let mut set = RecencySet::new();
    set.insert(s("a"));
    set.insert(s("b"));
    assert!(set.contains(&s("a")));
    assert!(set.contains(&s("b")));
    assert!(!set.contains(&s("c")));
    assert_eq!(set.clear(), 2);
    assert!(!set.contains(&s("a")));
    assert!(!set.contains(&s("b")));
    set.insert(s("c"));
    assert!(set.contains(&s("c")));
    assert!(!set.contains(&s("a")));
}

#[test]
fn duplicates_are_counted_as_recordings() {
    let mut set = RecencySet::new();
    set.insert(s("a"));
    set.insert(s("a"));
    assert_eq!(set.len(), 2);
    assert!(set.contains(&s("a")));
    assert_eq!(set.clear(), 2);
}

#[test]
fn clear_on_empty_reports_zero() {
    let mut set = RecencySet::new();
    assert_eq!(set.clear(), 0);
    assert_eq!(set.clear(), 0);
    assert!(set.is_empty());
}

#[test]
fn clear_twice_equals_clear_once() {
    let mut set = RecencySet::new();
    set.insert(s("x"));
    assert_eq!(set.clear(), 1);
    assert_eq!(set.clear(), 0);
    assert!(!set.contains(&s("x")));
}

#[test]
fn interleaved_inserts_of_distinct_subjects_are_kept() {
    let shared = std::sync::Arc::new(std::sync::Mutex::new(RecencySet::new()));
    let ids: Vec<String> = (0..50).map(|i| format!("user{}", i)).collect();
    for id in ids.iter().rev() {
        let handle = std::sync::Arc::clone(&shared);
        handle.lock().unwrap().insert(id.clone());
    }
    let set = shared.lock().unwrap();
    assert_eq!(set.len(), 50);
    for id in &ids {
        assert!(set.contains(id));
    }
}

#[test]
fn membership_compares_whole_identifier() {
    let mut set = RecencySet::new();
    set.insert(s("1234"));
    assert!(!set.contains(&s("123")));
    assert!(!set.contains(&s("12345")));
    assert!(!set.contains(&s("")));
    assert!(set.contains(&s("1234")));
}
