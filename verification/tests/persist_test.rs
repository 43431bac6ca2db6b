use typst_collab::persist::SavedRevisions;

fn docs(list: &[(&str, usize)]) -> Vec<(String, usize)> {
    list.iter().map(|(k, v)| (k.to_string(), *v)).collect()
}

#[test]
fn nothing_saved_means_everything_with_operations_is_pending() {
    let saved = SavedRevisions::new();
    assert_eq!(saved.saved_revision(&"a".to_string()), 0);
    let current = docs(&[("a", 2), ("b", 0), ("c", 1)]);
    assert_eq!(saved.pending(&current), docs(&[("a", 2), ("c", 1)]));
}

#[test]
fn recorded_documents_are_no_longer_pending() {
    let mut saved = SavedRevisions::new();
    let current = docs(&[("a", 2), ("b", 3)]);
    for (key, revision) in saved.pending(&current) {
        saved.record(key, revision);
    }
    assert!(saved.pending(&current).is_empty());
    assert_eq!(saved.saved_revision(&"a".to_string()), 2);
    assert_eq!(saved.saved_revision(&"b".to_string()), 3);
    // a document that moves on is pending again, the other is not
    let later = docs(&[("a", 5), ("b", 3)]);
    assert_eq!(saved.pending(&later), docs(&[("a", 5)]));
    saved.record("a".to_string(), 5);
    assert_eq!(saved.saved_revision(&"a".to_string()), 5);
    assert_eq!(saved.entries.len(), 2);
    assert!(saved.pending(&later).is_empty());
}

#[test]
fn recording_a_known_key_does_not_add_a_pair() {
    let mut saved = SavedRevisions::new();
    saved.record("a".to_string(), 1);
    saved.record("b".to_string(), 1);
    saved.record("a".to_string(), 4);
    assert_eq!(saved.entries.len(), 2);
    assert_eq!(saved.saved_revision(&"a".to_string()), 4);
}
