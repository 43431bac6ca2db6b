use operational_transform::{Operation, OperationSeq};
use typst_collab::structs::{Entry, PayloadType, RawOperation, Revision, ServerResponse, EXP_TIME};

fn raw(text: &str, range_offset: u64, range_length: u64) -> RawOperation {
    RawOperation { text: text.to_string(), range_offset, range_length }
}

#[test]
fn edit_kinds() {
    let insert = raw("abc", 4, 0);
    assert!(insert.is_insert() && !insert.is_delete() && !insert.is_replace());
    let empty_insert = raw("", 4, 0);
    assert!(empty_insert.is_insert() && !empty_insert.is_delete() && !empty_insert.is_replace());
    let delete = raw("", 4, 2);
    assert!(!delete.is_insert() && delete.is_delete() && !delete.is_replace());
    let replace = raw("x", 4, 2);
    assert!(!replace.is_insert() && !replace.is_delete() && replace.is_replace());
}

#[test]
fn insert_builds_retain_then_insert() {
    let seq = raw("abc", 4, 0).to_operation_seq();
    assert_eq!(seq.ops(), &[Operation::Retain(4), Operation::Insert("abc".to_string())]);
    assert_eq!(seq.base_len(), 4);
    assert_eq!(seq.target_len(), 7);
}

#[test]
fn delete_builds_retain_then_delete() {
    let seq = raw("", 4, 2).to_operation_seq();
    assert_eq!(seq.ops(), &[Operation::Retain(4), Operation::Delete(2)]);
    assert_eq!(seq.base_len(), 6);
    assert_eq!(seq.target_len(), 4);
}

#[test]
fn replace_puts_the_insert_before_the_delete() {
    let seq = raw("xy", 1, 3).to_operation_seq();
    assert_eq!(
        seq.ops(),
        &[Operation::Retain(1), Operation::Insert("xy".to_string()), Operation::Delete(3)]
    );
    assert_eq!(seq.apply("abcd").unwrap(), "axy");
}

#[test]
fn edit_at_offset_zero_has_no_retain() {
    let seq = raw("ab", 0, 0).to_operation_seq();
    assert_eq!(seq.ops(), &[Operation::Insert("ab".to_string())]);
    let mut expected = OperationSeq::default();
    expected.insert("ab");
    assert_eq!(seq, expected);
}

#[test]
fn into_user_op_keeps_client_and_revision() {
    let op = raw("!", 5, 0).into_user_op("client-7".to_string(), Revision::Known(3));
    assert_eq!(op.client_id, "client-7");
    assert_eq!(op.revision, Revision::Known(3));
    assert_eq!(op.operation.apply("hello").unwrap(), "hello!");
}

#[test]
fn edit_limits() {
    assert!(raw("abc", 4, 2).is_within_limits());
    assert!(!raw("abc", u64::MAX, 2).is_within_limits());
    assert!(!raw("abc", u64::MAX - 1, 0).is_within_limits());
}

#[test]
fn revision_inner_and_add() {
    assert_eq!(Revision::Absent.inner(), 0);
    assert_eq!(Revision::Known(42).inner(), 42);
    assert_eq!(Revision::Absent + 5, Revision::Known(5));
    assert_eq!(Revision::Known(3) + 4, Revision::Known(7));
    assert_eq!((Revision::Known(3) + 4).inner(), Revision::Known(3).inner() + 4);
}

#[test]
fn expiry_is_thirty_minutes() {
    assert_eq!(EXP_TIME, 1800);
}

#[test]
fn payload_constructors() {
    assert_eq!(PayloadType::error("e".to_string()), PayloadType::Error { message: "e".to_string() });
    let entry = Entry::new("a.typ".to_string(), "text".to_string());
    assert_eq!(entry.path, "a.typ");
    assert_eq!(entry.content, "text");
    assert_eq!(PayloadType::init_ok(entry.clone()), PayloadType::InitOk { first_file: entry.clone() });
    assert_eq!(PayloadType::open_file_ok(entry.clone()), PayloadType::OpenFileOk { file: entry });
    assert_eq!(PayloadType::create_file_ok("p".to_string()), PayloadType::CreateFileOk { path: "p".to_string() });
    assert_eq!(PayloadType::delete_file_ok("p".to_string()), PayloadType::DeleteFileOk { path: "p".to_string() });
    assert_eq!(
        PayloadType::rename_file_ok("a".to_string(), "b".to_string()),
        PayloadType::RenameFileOk { old_path: "a".to_string(), new_path: "b".to_string() }
    );
    assert_eq!(
        PayloadType::create_directory_ok("d".to_string()),
        PayloadType::CreateDirectoryOk { path: "d".to_string() }
    );
    assert_eq!(
        PayloadType::delete_directory_ok("d".to_string()),
        PayloadType::DeleteDirectoryOk { path: "d".to_string() }
    );
    assert_eq!(PayloadType::edit_file_ok("p".to_string()), PayloadType::EditFileOk { path: "p".to_string() });
    let response = ServerResponse::new(Revision::Known(2), PayloadType::edit_file_ok("p".to_string()));
    assert_eq!(response.revision, Revision::Known(2));
    assert_eq!(response.payload, PayloadType::EditFileOk { path: "p".to_string() });
}

#[test]
fn empty_insert_only_retains() {
    let seq = raw("", 4, 0).to_operation_seq();
    assert_eq!(seq.ops(), &[Operation::Retain(4)]);
    assert_eq!(seq.apply("abcd").unwrap(), "abcd");
}

#[test]
fn delete_from_the_start() {
    let seq = raw("", 0, 2).to_operation_seq();
    assert_eq!(seq.ops(), &[Operation::Delete(2)]);
    assert_eq!(seq.apply("ab").unwrap(), "");
    assert!(seq.apply("abc").is_err());
}
