//! Files as the cache keeps them, and what storing one writes.
use vstd::prelude::*;
use operational_transform::OperationSeq;
use crate::mem_redis::{get_phantom_token, phantom_token};
use crate::structs::EXP_TIME;

verus! {

/// A file's content and the operations applied to it.
#[derive(Debug)]
pub struct CachedFile {
    pub content: String,
    pub operations: Vec<OperationSeq>,
}

impl CachedFile {
    /// A file without operations.
    pub fn init(content: String) -> (r: Self)
        ensures
            r.content == content,
            r.operations@.len() == 0,
    {
        Self { content, operations: Vec::new() }
    }

    pub fn with_operations(content: String, operations: Vec<OperationSeq>) -> (r: Self)
        ensures
            r.content == content,
            r.operations == operations,
    {
        Self { content, operations }
    }
}

/// A file under its cache key.
#[derive(Debug)]
pub struct RedisEntry {
    pub id: String,
    pub value: CachedFile,
}

/// One write to the cache.
#[derive(Debug, Clone, PartialEq, Eq)]
pub enum CacheCommand {
    /// Sets `key` to `value`.
    Store { key: String, value: String },
    /// Lets `key` expire after `seconds`.
    Expire { key: String, seconds: i64 },
}

/// The writes that store a file: its serialized value under its id, and an
/// empty phantom key, each with an expiry; the phantom key expires three
/// seconds before the entry, which marks the entry as about to expire.
pub open spec fn insert_commands_spec(id: Seq<char>, serialized: Seq<char>, r: Seq<CacheCommand>) -> bool {
    &&& r.len() == 4
    &&& r[0] matches CacheCommand::Store { key, value } && key@ == id && value@ == serialized
    &&& r[1] matches CacheCommand::Expire { key, seconds } && key@ == id && seconds == EXP_TIME
    &&& r[2] matches CacheCommand::Store { key, value } && key@ == phantom_token(id) && value@.len() == 0
    &&& r[3] matches CacheCommand::Expire { key, seconds } && key@ == phantom_token(id) && seconds
        == EXP_TIME - 3
}

impl RedisEntry {
    pub fn new(id: String, value: CachedFile) -> (r: Self)
        ensures
            r.id == id,
            r.value == value,
    {
        Self { id, value }
    }

    /// The writes, in order, that store this entry, given its value as
    /// serialized text.
    pub fn insert_commands(&self, serialized: String) -> (r: Vec<CacheCommand>)
        ensures
            insert_commands_spec(self.id@, serialized@, r@),
    {
        let phantom = get_phantom_token(&self.id);
        let mut commands: Vec<CacheCommand> = Vec::new();
        commands.push(CacheCommand::Store { key: self.id.clone(), value: serialized });
        commands.push(CacheCommand::Expire { key: self.id.clone(), seconds: EXP_TIME });
        commands.push(CacheCommand::Store { key: phantom.clone(), value: String::new() });
        commands.push(CacheCommand::Expire { key: phantom, seconds: EXP_TIME - 3 });
        commands
    }
}

} // verus!
