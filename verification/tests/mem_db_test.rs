use operational_transform::OperationSeq;
use typst_collab::mem_db::{CacheCommand, CachedFile, RedisEntry};
use typst_collab::structs::EXP_TIME;

#[test]
fn cached_file_constructors() {
    let file = CachedFile::init("content".to_string());
    assert_eq!(file.content, "content");
    assert!(file.operations.is_empty());
    let mut op = OperationSeq::default();
    op.retain(7);
    let file = CachedFile::with_operations("content".to_string(), vec![op.clone()]);
    assert_eq!(file.operations, vec![op]);
}

#[test]
fn storing_an_entry_writes_value_and_phantom_key() {
    let entry = RedisEntry::new("doc1".to_string(), CachedFile::init("x".to_string()));
    assert_eq!(entry.id, "doc1");
    let commands = entry.insert_commands("{\"content\":\"x\"}".to_string());
    assert_eq!(
        commands,
        vec![
            CacheCommand::Store { key: "doc1".to_string(), value: "{\"content\":\"x\"}".to_string() },
            CacheCommand::Expire { key: "doc1".to_string(), seconds: EXP_TIME },
            CacheCommand::Store { key: "phantom_doc1".to_string(), value: String::new() },
            CacheCommand::Expire { key: "phantom_doc1".to_string(), seconds: 1797 },
        ]
    );
}
