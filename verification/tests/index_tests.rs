use offline_sync::index::OfflineIndex;

#[test]
fn empty_index_has_no_entries() {
    let index = OfflineIndex::empty();
    assert_eq!(index.len(), 0);
    assert!(index.lookup("https://a").is_none());
    assert!(!index.contains("https://a"));
}

#[test]
fn insert_then_lookup() {
    let mut index = OfflineIndex::empty();
    index.insert("https://a".to_string(), "a.html".to_string());
    index.insert("https://b".to_string(), "b.html".to_string());
    assert_eq!(index.len(), 2);
    assert_eq!(index.lookup("https://a").map(String::as_str), Some("a.html"));
    assert_eq!(index.lookup("https://b").map(String::as_str), Some("b.html"));
    assert!(index.lookup("https://c").is_none());
}

#[test]
fn insert_overwrites_existing_key() {
    let mut index = OfflineIndex::empty();
    index.insert("https://a".to_string(), "old.html".to_string());
    index.insert("https://a".to_string(), "new.html".to_string());
    assert_eq!(index.len(), 1);
    assert_eq!(index.lookup("https://a").map(String::as_str), Some("new.html"));
}

#[test]
fn pairs_rebuild_the_same_index() {
    let mut index = OfflineIndex::empty();
    index.insert("https://a".to_string(), "a.html".to_string());
    index.insert("https://b".to_string(), "b.html".to_string());
    index.insert("https://a".to_string(), "a2.html".to_string());

    let mut rebuilt = OfflineIndex::empty();
    for (url, filename) in index.pairs() {
        rebuilt.insert(url.clone(), filename.clone());
    }
    assert_eq!(rebuilt.len(), 2);
    assert_eq!(rebuilt.lookup("https://a").map(String::as_str), Some("a2.html"));
    assert_eq!(rebuilt.lookup("https://b").map(String::as_str), Some("b.html"));
}
