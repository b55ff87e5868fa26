use zen::authorship::{
    accept_loaded, authorship_file_name, prepare_save, stable_hash, PersistedAuthorship, PersistedRange, SaveAction,
    AUTHORSHIP_VERSION,
};

#[test]
fn the_hash_is_fnv1a() {
    assert_eq!(stable_hash(b""), 0xcbf29ce484222325);
    assert_eq!(stable_hash(b"a"), 0xaf63dc4c8601ec8c);
    assert_eq!(stable_hash(b"foobar"), 0x85944171f73967e8);
}

#[test]
fn file_names_are_the_hash_in_hex() {
    let name = authorship_file_name("a");
    assert_eq!(name, "af63dc4c8601ec8c.json");
    assert_eq!(authorship_file_name("").len(), 21);
}

#[test]
fn saving_without_ranges_deletes() {
    assert!(matches!(prepare_save("/a.md", "text".to_string(), vec![]), SaveAction::Delete));
    assert!(matches!(prepare_save("/a.md", "text".to_string(), vec![3..3, 5..2]), SaveAction::Delete));
}

#[test]
fn saved_data_is_read_back() {
    let saved = match prepare_save("/a.md", "hello".to_string(), vec![0..2, 4..4, 3..5]) {
        SaveAction::Write(p) => p,
        SaveAction::Delete => panic!("expected a write"),
    };
    assert_eq!(saved.version(), AUTHORSHIP_VERSION);
    assert_eq!(saved.path(), "/a.md");
    let loaded = accept_loaded(saved, "/a.md").unwrap();
    assert_eq!(loaded.previous_text(), "hello");
    assert_eq!(loaded.human_ranges(), vec![0..2, 3..5]);
    assert_eq!(loaded.persisted_ranges(), &[PersistedRange { start: 0, end: 2 }, PersistedRange { start: 3, end: 5 }][..]);
}

#[test]
fn data_for_another_file_or_version_is_refused() {
    let p = PersistedAuthorship::from_parts(AUTHORSHIP_VERSION, "/a.md".to_string(), "x".to_string(), vec![]);
    assert!(accept_loaded(p, "/b.md").is_none());
    let old = PersistedAuthorship::from_parts(AUTHORSHIP_VERSION + 1, "/a.md".to_string(), "x".to_string(), vec![]);
    assert!(accept_loaded(old, "/a.md").is_none());
}
