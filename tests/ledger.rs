use phone_sync::hash_store::{HashStore, HashTable};

fn s(x: &str) -> String {
    x.to_string()
}

#[test]
fn empty_ledger_has_no_entries() {
    let store = HashStore::default();
    assert_eq!(store.regular_hashes.len(), 0);
    assert_eq!(store.pseudo_hashes.len(), 0);
    assert_eq!(store.get(false, &s("a.txt")), None);
}

#[test]
fn last_write_wins() {
    let mut t = HashTable::new();
    t.insert(s("file1"), s("hash1"));
    t.insert(s("file2"), s("hash2"));
    t.insert(s("file1"), s("hash3"));
    assert_eq!(t.len(), 2);
    assert_eq!(t.get(&s("file1")), Some(&s("hash3")));
    assert_eq!(t.get(&s("file2")), Some(&s("hash2")));
    assert_eq!(t.get(&s("file3")), None);
}

#[test]
fn namespaces_are_separate() {
    let mut store = HashStore::new();
    store.set(false, s("a.txt"), s("full"));
    store.set(true, s("a.txt"), s("pseudo"));
    assert_eq!(store.get(false, &s("a.txt")), Some(&s("full")));
    assert_eq!(store.get(true, &s("a.txt")), Some(&s("pseudo")));
    store.set(true, s("b.txt"), s("p2"));
    assert_eq!(store.get(false, &s("b.txt")), None);
    assert_eq!(store.regular_hashes.len(), 1);
    assert_eq!(store.pseudo_hashes.len(), 2);
}

#[test]
fn test_hash_store_load_save() {
    let mut store = HashStore::default();
    store.regular_hashes.insert(s("file1"), s("hash1"));
    let saved = store.regular_hashes.entries();
    let loaded = HashTable::from_entries(saved);
    assert_eq!(loaded.entries(), store.regular_hashes.entries());
    assert_eq!(loaded.get(&s("file1")), Some(&s("hash1")));
}

#[test]
fn hash_store_entries_round_trip() {
    let mut t = HashTable::new();
    t.insert(s("file1"), s("hash1"));
    t.insert(s("dir/file2"), s("hash2"));
    let mut pairs = t.entries();
    assert_eq!(pairs.len(), 2);
    pairs.reverse();
    let back = HashTable::from_entries(pairs);
    assert_eq!(back.len(), 2);
    assert_eq!(back.get(&s("file1")), Some(&s("hash1")));
    assert_eq!(back.get(&s("dir/file2")), Some(&s("hash2")));
}

#[test]
fn from_entries_keeps_last_duplicate() {
    let t = HashTable::from_entries(vec![(s("k"), s("v1")), (s("j"), s("w")), (s("k"), s("v2"))]);
    assert_eq!(t.len(), 2);
    assert_eq!(t.get(&s("k")), Some(&s("v2")));
}
