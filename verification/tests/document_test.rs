use typst_collab::document::Document;
use typst_collab::structs::{RawOperation, Revision};
use typst_collab::text::append_decimal;

fn edit(client: &str, revision: Revision, text: &str, offset: u64, length: u64) -> typst_collab::structs::UserOperation {
    RawOperation { text: text.to_string(), range_offset: offset, range_length: length }
        .into_user_op(client.to_string(), revision)
}

#[test]
fn edit_from_a_current_client_is_applied() {
    let mut doc = Document::new("hello".to_string());
    assert_eq!(doc.apply_operation(edit("a", Revision::Absent, " world", 5, 0)), Ok(()));
    assert_eq!(doc.state.text, "hello world");
    assert_eq!(doc.state.operations.len(), 1);
    assert_eq!(doc.state.operations[0].client_id, "a");
    assert_eq!(doc.state.operations[0].revision, Revision::Absent);
    assert_eq!(doc.apply_operation(edit("b", Revision::Known(1), "there", 6, 5)), Ok(()));
    assert_eq!(doc.state.text, "hello there");
    assert_eq!(doc.state.operations.len(), 2);
}

#[test]
fn concurrent_edits_are_transformed() {
    let mut doc = Document::new("ab".to_string());
    assert_eq!(doc.apply_operation(edit("a", Revision::Known(0), "c", 2, 0)), Ok(()));
    assert_eq!(doc.state.text, "abc");
    // b had not seen a's edit; its insert at the same place follows a's
    assert_eq!(doc.apply_operation(edit("b", Revision::Known(0), "d", 2, 0)), Ok(()));
    assert_eq!(doc.state.text, "abdc");
    assert_eq!(doc.state.operations.len(), 2);
    assert_eq!(doc.state.operations[1].operation.base_len(), 3);
    assert_eq!(doc.state.operations[1].client_id, "b");
}

#[test]
fn revision_ahead_of_the_history_is_refused() {
    let mut doc = Document::new("ab".to_string());
    assert_eq!(
        doc.apply_operation(edit("a", Revision::Known(1), "c", 2, 0)),
        Err("Invalid revision".to_string())
    );
    assert_eq!(doc.state.text, "ab");
    assert!(doc.state.operations.is_empty());
}

#[test]
fn edit_not_reaching_the_end_does_not_fit() {
    let mut doc = Document::new("hello".to_string());
    assert_eq!(
        doc.apply_operation(edit("a", Revision::Absent, "X", 0, 0)),
        Err("incompatible lengths".to_string())
    );
    assert_eq!(doc.state.text, "hello");
    assert!(doc.state.operations.is_empty());
}

#[test]
fn stale_edit_of_another_length_cannot_be_transformed() {
    let mut doc = Document::new("ab".to_string());
    assert_eq!(doc.apply_operation(edit("a", Revision::Known(0), "c", 2, 0)), Ok(()));
    assert_eq!(
        doc.apply_operation(edit("b", Revision::Known(0), "d", 1, 0)),
        Err("incompatible lengths".to_string())
    );
    assert_eq!(doc.state.text, "abc");
    assert_eq!(doc.state.operations.len(), 1);
}

#[test]
fn too_long_a_result_is_refused() {
    let mut doc = Document::new("ab".to_string());
    let long = "x".repeat(100_000);
    assert_eq!(
        doc.apply_operation(edit("a", Revision::Absent, &long, 2, 0)),
        Err("Operation too long: 100002".to_string())
    );
    assert_eq!(doc.state.text, "ab");
    let exact = "x".repeat(99_998);
    assert_eq!(doc.apply_operation(edit("a", Revision::Absent, &exact, 2, 0)), Ok(()));
    assert_eq!(doc.state.text.chars().count(), 100_000);
}

#[test]
fn commit_applies_an_operation_as_given() {
    let mut doc = Document::new("abc".to_string());
    assert_eq!(doc.commit_operation(edit("a", Revision::Absent, "", 1, 2)), Ok(()));
    assert_eq!(doc.state.text, "a");
    assert_eq!(
        doc.commit_operation(edit("a", Revision::Absent, "z", 0, 0)),
        Err("incompatible lengths".to_string())
    );
    assert_eq!(doc.state.text, "a");
    assert_eq!(doc.state.operations.len(), 1);
}

#[test]
fn decimal_digits() {
    let mut s = "n=".to_string();
    append_decimal(&mut s, 0);
    assert_eq!(s, "n=0");
    let mut s = String::new();
    append_decimal(&mut s, 1234567890);
    assert_eq!(s, "1234567890");
    let mut s = String::new();
    append_decimal(&mut s, usize::MAX);
    assert_eq!(s, usize::MAX.to_string());
}

#[test]
fn history_replays_to_the_text() {
    let initial = "ab".to_string();
    let mut doc = Document::new(initial.clone());
    let _ = doc.apply_operation(edit("a", Revision::Known(0), "c", 2, 0));
    let _ = doc.apply_operation(edit("b", Revision::Known(0), "d", 2, 0));
    let _ = doc.apply_operation(edit("b", Revision::Known(7), "e", 4, 0));
    let _ = doc.apply_operation(edit("c", Revision::Known(2), "", 3, 1));
    let mut text = initial;
    for (i, op) in doc.state.operations.iter().enumerate() {
        text = op.operation.apply(&text).unwrap();
        assert!(op.revision.inner() as usize <= i);
    }
    assert_eq!(text, doc.state.text);
    assert_eq!(doc.state.text, "abd");
    assert_eq!(doc.state.operations.len(), 3);
    assert!(doc.state.text.chars().count() <= 100_000);
}
