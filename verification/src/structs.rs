//! The messages exchanged with editing clients, and the documents that
//! their edits change.
use vstd::prelude::*;
use operational_transform::OperationSeq;
use crate::ot::{
    OpView, op_seq_ops, op_seq_new, op_seq_retain, op_seq_delete, op_seq_insert, sum_of,
    lengths_fit, base_len_of, target_len_of, inserted_len_of, lemma_sum_push, lemma_sum_concat,
    op_base, op_target, op_inserted, apply_ops, lemma_apply_cons,
};
use crate::document::MAX_TARGET_LEN;
use vstd::std_specs::ops::AddSpec;

verus! {

/// An edit as a client sends it: the characters from `range_offset` on,
/// `range_length` of them, are replaced by `text`.
#[derive(Debug, Clone, PartialEq, Eq)]
pub struct RawOperation {
    pub text: String,
    pub range_offset: u64,
    pub range_length: u64,
}

/// The operations that an edit turns into: a retain up to the offset, then
/// the inserted text and the deletion of the range, in that order.
pub open spec fn edit_ops(range_offset: u64, range_length: u64, text: Seq<char>) -> Seq<OpView> {
    let lead = if range_offset == 0 {
        Seq::<OpView>::empty()
    } else {
        seq![OpView::Retain(range_offset)]
    };
    let ins = if text.len() == 0 {
        Seq::<OpView>::empty()
    } else {
        seq![OpView::Insert(text)]
    };
    let del = if range_length == 0 {
        Seq::<OpView>::empty()
    } else {
        seq![OpView::Delete(range_length)]
    };
    lead + ins + del
}

impl RawOperation {
    /// Nothing is replaced: the edit only inserts.
    pub open spec fn spec_is_insert(&self) -> bool {
        self.range_length == 0
    }

    /// A range is replaced by nothing.
    pub open spec fn spec_is_delete(&self) -> bool {
        self.range_length > 0 && self.text@.len() == 0
    }

    /// A range is replaced by some text.
    pub open spec fn spec_is_replace(&self) -> bool {
        self.range_length > 0 && self.text@.len() > 0
    }

    /// The operations of this edit.
    pub open spec fn ops(&self) -> Seq<OpView> {
        edit_ops(self.range_offset, self.range_length, self.text@)
    }

    /// The counters of the sequence that this edit is built into fit in a
    /// `usize` (where they do not, building it overflows).
    pub open spec fn buildable(&self) -> bool {
        &&& self.range_offset + self.range_length <= usize::MAX
        &&& self.range_offset + self.text@.len() <= usize::MAX
    }

    pub fn is_insert(&self) -> (r: bool)
        ensures
            r == self.spec_is_insert(),
    {
        self.range_length == 0
    }

    pub fn is_delete(&self) -> (r: bool)
        ensures
            r == self.spec_is_delete(),
    {
        self.range_length > 0 && self.text.as_str().is_empty()
    }

    pub fn is_replace(&self) -> (r: bool)
        ensures
            r == self.spec_is_replace(),
    {
        self.range_length > 0 && !self.text.as_str().is_empty()
    }

    /// The edit can be built, and its text is far enough from the machine's
    /// limits that a document can take it (see `UserOperation::within_limits`).
    pub open spec fn within_limits(&self) -> bool {
        &&& self.buildable()
        &&& self.text@.len() + 2 * MAX_TARGET_LEN <= isize::MAX
    }

    /// Whether the edit is within limits (see `within_limits`).
    pub fn is_within_limits(&self) -> (r: bool)
        ensures
            r == self.within_limits(),
    {
        let chars: usize = self.text.as_str().unicode_len();
        self.range_offset as u128 + self.range_length as u128 <= usize::MAX as u128
            && self.range_offset as u128 + chars as u128 <= usize::MAX as u128
            && chars as u128 + 2 * MAX_TARGET_LEN as u128 <= isize::MAX as u128
    }

    /// The lengths of an edit's operations: it consumes the offset and the
    /// range, produces the offset and the text, and inserts the text.
    pub proof fn lemma_edit_lengths(&self)
        ensures
            base_len_of(self.ops()) == self.range_offset + self.range_length,
            target_len_of(self.ops()) == self.range_offset + self.text@.len(),
            inserted_len_of(self.ops()) == self.text@.len(),
    {
        let off = self.range_offset;
        let len = self.range_length;
        let t = self.text@;
        let lead = if off == 0 { Seq::<OpView>::empty() } else { seq![OpView::Retain(off)] };
        let ins = if t.len() == 0 { Seq::<OpView>::empty() } else { seq![OpView::Insert(t)] };
        let del = if len == 0 { Seq::<OpView>::empty() } else { seq![OpView::Delete(len)] };
        assert(self.ops() == lead + ins + del);
        reveal_with_fuel(sum_of, 2);
        lemma_sum_concat(lead, ins, |o: OpView| op_base(o));
        lemma_sum_concat(lead + ins, del, |o: OpView| op_base(o));
        lemma_sum_concat(lead, ins, |o: OpView| op_target(o));
        lemma_sum_concat(lead + ins, del, |o: OpView| op_target(o));
        lemma_sum_concat(lead, ins, |o: OpView| op_inserted(o));
        lemma_sum_concat(lead + ins, del, |o: OpView| op_inserted(o));
    }

    /// Exactly one of the three kinds describes an edit.
    pub proof fn law_exactly_one_kind(&self)
        ensures
            self.spec_is_insert() ==> !self.spec_is_delete() && !self.spec_is_replace(),
            self.spec_is_delete() ==> !self.spec_is_insert() && !self.spec_is_replace(),
            self.spec_is_replace() ==> !self.spec_is_insert() && !self.spec_is_delete(),
            self.spec_is_insert() || self.spec_is_delete() || self.spec_is_replace(),
    {
    }

    /// An edit does what it says: applied to a text that reaches to the end
    /// of its range, it gives the text up to the offset followed by the new
    /// text (what follows the range is not kept, as no operation retains it).
    pub proof fn law_edit_applies(&self, s: Seq<char>)
        requires
            s.len() >= self.range_offset + self.range_length,
        ensures
            apply_ops(self.ops(), s) == s.take(self.range_offset as int) + self.text@,
    {
        let off = self.range_offset;
        let len = self.range_length;
        let t = self.text@;
        let lead = if off == 0 { Seq::<OpView>::empty() } else { seq![OpView::Retain(off)] };
        let ins = if t.len() == 0 { Seq::<OpView>::empty() } else { seq![OpView::Insert(t)] };
        let del = if len == 0 { Seq::<OpView>::empty() } else { seq![OpView::Delete(len)] };
        let rest = s.skip(off as int);
        // the insert and the delete, on what follows the offset
        assert(apply_ops(ins + del, rest) == t) by {
            if len == 0 {
                assert(del =~= Seq::<OpView>::empty());
                if t.len() == 0 {
                    assert(ins + del =~= Seq::<OpView>::empty());
                } else {
                    assert(ins + del =~= seq![OpView::Insert(t)] + Seq::<OpView>::empty());
                    lemma_apply_cons(OpView::Insert(t), Seq::<OpView>::empty(), rest);
                    assert(t + Seq::<char>::empty() =~= t);
                }
            } else {
                lemma_apply_cons(OpView::Delete(len), Seq::<OpView>::empty(), rest);
                assert(seq![OpView::Delete(len)] + Seq::<OpView>::empty() =~= seq![OpView::Delete(len)]);
                if t.len() == 0 {
                    assert(ins + del =~= seq![OpView::Delete(len)]);
                    assert(t =~= Seq::<char>::empty());
                } else {
                    assert(ins + del =~= seq![OpView::Insert(t)] + seq![OpView::Delete(len)]);
                    lemma_apply_cons(OpView::Insert(t), seq![OpView::Delete(len)], rest);
                    assert(t + Seq::<char>::empty() =~= t);
                }
            }
        }
        assert(self.ops() =~= lead + (ins + del));
        if off == 0 {
            assert(lead + (ins + del) =~= ins + del);
            assert(s.skip(0) =~= s);
            assert(s.take(0) + t =~= t);
        } else {
            assert(lead + (ins + del) =~= seq![OpView::Retain(off)] + (ins + del));
            lemma_apply_cons(OpView::Retain(off), ins + del, s);
        }
    }

    /// An edit within limits becomes an operation within limits.
    pub proof fn lemma_within_limits(&self)
        requires
            self.within_limits(),
        ensures
            lengths_fit(self.ops()),
            inserted_len_of(self.ops()) + 2 * MAX_TARGET_LEN <= isize::MAX,
    {
        self.lemma_edit_lengths();
    }

    /// Builds the operation sequence of this edit: a retain up to the offset,
    /// then an insert, a delete, or both.
    pub fn to_operation_seq(&self) -> (r: OperationSeq)
        requires
            self.buildable(),
        ensures
            op_seq_ops(r) == self.ops(),
    {
        let mut seq = op_seq_new();
        proof {
            reveal_with_fuel(sum_of, 2);
        }
        op_seq_retain(&mut seq, self.range_offset);
        let ghost lead = op_seq_ops(seq);
        proof {
            reveal_with_fuel(sum_of, 2);
            assert(lengths_fit(lead));
            assert(base_len_of(lead) == self.range_offset);
            assert(target_len_of(lead) == self.range_offset);
        }
        if self.is_insert() {
            op_seq_insert(&mut seq, self.text.as_str());
            assert(op_seq_ops(seq) =~= self.ops());
        } else if self.is_delete() {
            op_seq_delete(&mut seq, self.range_length);
            assert(op_seq_ops(seq) =~= self.ops());
        } else {
            op_seq_delete(&mut seq, self.range_length);
            let ghost deleted = op_seq_ops(seq);
            proof {
                assert(deleted =~= lead.push(OpView::Delete(self.range_length)));
                lemma_sum_push(lead, OpView::Delete(self.range_length), |o: OpView| op_base(o));
                lemma_sum_push(lead, OpView::Delete(self.range_length), |o: OpView| op_target(o));
            }
            op_seq_insert(&mut seq, self.text.as_str());
            assert(op_seq_ops(seq) =~= self.ops());
        }
        seq
    }

    /// The edit as an operation of the given client against the given
    /// revision.
    pub fn into_user_op(&self, client_id: String, revision: Revision) -> (r: UserOperation)
        requires
            self.buildable(),
        ensures
            r.client_id == client_id,
            r.revision == revision,
            op_seq_ops(r.operation) == self.ops(),
    {
        UserOperation { revision, client_id, operation: self.to_operation_seq() }
    }
}

/// The revision a client's request refers to: none yet, or a number of
/// operations that the client has seen.
#[derive(Debug, Clone, Copy, PartialEq, Eq, Structural)]
pub enum Revision {
    Absent,
    Known(u64),
}

impl Revision {
    /// The revision as a number, where `Absent` counts as zero.
    pub open spec fn spec_inner(self) -> u64 {
        match self {
            Revision::Absent => 0,
            Revision::Known(rev) => rev,
        }
    }

    pub fn inner(&self) -> (r: u64)
        ensures
            r == self.spec_inner(),
    {
        match self {
            Revision::Absent => 0,
            Revision::Known(rev) => *rev,
        }
    }
}

/// Moving a revision `other` operations on; an absent revision counts as
/// zero.
impl core::ops::Add<u64> for Revision {
    type Output = Self;

    fn add(self, other: u64) -> (r: Self) {
        match self {
            Revision::Absent => Revision::Known(other),
            Revision::Known(rev) => Revision::Known(rev + other),
        }
    }
}

impl vstd::std_specs::ops::AddSpecImpl<u64> for Revision {
    open spec fn obeys_add_spec() -> bool {
        true
    }

    open spec fn add_req(self, rhs: u64) -> bool {
        self.spec_inner() + rhs <= u64::MAX
    }

    open spec fn add_spec(self, rhs: u64) -> Self {
        Revision::Known((self.spec_inner() + rhs) as u64)
    }
}

/// Moving a revision on by `n` moves its number on by `n`, from zero where
/// it was absent.
pub proof fn law_revision_add(r: Revision, n: u64)
    requires
        r.spec_inner() + n <= u64::MAX,
    ensures
        r.add_spec(n).spec_inner() == r.spec_inner() + n,
        r.add_spec(n) is Known,
{
}

/// How long a cache entry lives, in seconds (30 minutes).
pub const EXP_TIME: i64 = 60 * 30;

/// What a client asks for.
#[derive(Debug, Clone, PartialEq, Eq)]
pub enum ActionType {
    Init { project_id: String },
    CreateFile { path: String, initial_content: Option<String> },
    DeleteFile { path: String },
    RenameFile { old_path: String, new_path: String },
    CreateDirectory { path: String },
    DeleteDirectory { path: String },
    EditFile { path: String, changes: RawOperation },
    OpenFile { path: String },
}

/// A request of a client.
#[derive(Debug, Clone, PartialEq, Eq)]
pub struct ClientRequest {
    pub revision: Revision,
    pub client_id: String,
    pub parent_revision: u64,
    pub timestamp: u64,
    pub action: ActionType,
}

/// A file and its content.
#[derive(Debug, Clone, PartialEq, Eq)]
pub struct Entry {
    pub path: String,
    pub content: String,
}

impl Entry {
    pub fn new(path: String, content: String) -> (r: Self)
        ensures
            r.path == path,
            r.content == content,
    {
        Self { path, content }
    }
}

/// What a response carries.
#[derive(Debug, Clone, PartialEq, Eq)]
pub enum PayloadType {
    Error { message: String },
    InitOk { first_file: Entry },
    CreateFileOk { path: String },
    DeleteFileOk { path: String },
    RenameFileOk { old_path: String, new_path: String },
    CreateDirectoryOk { path: String },
    DeleteDirectoryOk { path: String },
    EditFileOk { path: String },
    OpenFileOk { file: Entry },
}

impl PayloadType {
    pub fn error(message: String) -> (r: Self)
        ensures
            r == (PayloadType::Error { message }),
    {
        PayloadType::Error { message }
    }

    pub fn init_ok(first_file: Entry) -> (r: Self)
        ensures
            r == (PayloadType::InitOk { first_file }),
    {
        PayloadType::InitOk { first_file }
    }

    pub fn create_file_ok(path: String) -> (r: Self)
        ensures
            r == (PayloadType::CreateFileOk { path }),
    {
        PayloadType::CreateFileOk { path }
    }

    pub fn delete_file_ok(path: String) -> (r: Self)
        ensures
            r == (PayloadType::DeleteFileOk { path }),
    {
        PayloadType::DeleteFileOk { path }
    }

    pub fn rename_file_ok(old_path: String, new_path: String) -> (r: Self)
        ensures
            r == (PayloadType::RenameFileOk { old_path, new_path }),
    {
        PayloadType::RenameFileOk { old_path, new_path }
    }

    pub fn create_directory_ok(path: String) -> (r: Self)
        ensures
            r == (PayloadType::CreateDirectoryOk { path }),
    {
        PayloadType::CreateDirectoryOk { path }
    }

    pub fn delete_directory_ok(path: String) -> (r: Self)
        ensures
            r == (PayloadType::DeleteDirectoryOk { path }),
    {
        PayloadType::DeleteDirectoryOk { path }
    }

    pub fn edit_file_ok(path: String) -> (r: Self)
        ensures
            r == (PayloadType::EditFileOk { path }),
    {
        PayloadType::EditFileOk { path }
    }

    pub fn open_file_ok(file: Entry) -> (r: Self)
        ensures
            r == (PayloadType::OpenFileOk { file }),
    {
        PayloadType::OpenFileOk { file }
    }
}

/// A response to a client.
#[derive(Debug, Clone, PartialEq, Eq)]
pub struct ServerResponse {
    pub revision: Revision,
    pub payload: PayloadType,
}

impl ServerResponse {
    pub fn new(revision: Revision, payload: PayloadType) -> (r: Self)
        ensures
            r.revision == revision,
            r.payload == payload,
    {
        Self { revision, payload }
    }
}

/// An operation of a client, against the revision that the client had seen.
#[derive(Debug)]
pub struct UserOperation {
    pub client_id: String,
    pub revision: Revision,
    pub operation: OperationSeq,
}

} // verus!
