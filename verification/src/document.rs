//! A shared document: its text and the operations applied to it so far.
//! A new operation is transformed against the operations that its client
//! had not seen, then applied.
use vstd::prelude::*;
use crate::ot::{
    OpView, op_seq_ops, transformed_ops, base_len_of, target_len_of, inserted_len_of,
    lengths_fit, apply_ops, incompatible_lengths, op_seq_transform, op_seq_target_len,
    op_seq_apply, ot_error_message, lemma_inserted_le_target, lemma_apply_len,
};
use crate::structs::{RawOperation, UserOperation};
use crate::text::{decimal, append_decimal};

verus! {

/// The longest text that an applied operation may produce.
pub const MAX_TARGET_LEN: usize = 100000;

/// The text and the operations applied to it so far.
#[derive(Debug)]
pub struct DocumentState {
    pub text: String,
    pub operations: Vec<UserOperation>,
}

/// A document that clients edit together. `initial` is the text it was
/// created with, from which its history replays to its text.
pub struct Document {
    pub state: DocumentState,
    pub initial: Ghost<Seq<char>>,
}

/// The text that a history makes of `initial`, each operation applied in
/// turn to what the ones before it made; `None` where an operation does not
/// fit the text it meets.
pub open spec fn replay(initial: Seq<char>, history: Seq<Seq<OpView>>) -> Option<Seq<char>>
    decreases history.len(),
{
    if history.len() == 0 {
        Some(initial)
    } else {
        match replay(initial, history.drop_last()) {
            Some(t) => if t.len() == base_len_of(history.last()) {
                Some(apply_ops(history.last(), t))
            } else {
                None
            },
            None => None,
        }
    }
}

/// The operations of a history of user operations.
pub open spec fn history_ops(ops: Seq<UserOperation>) -> Seq<Seq<OpView>> {
    ops.map_values(|u: UserOperation| op_seq_ops(u.operation))
}

/// `op` transformed, in turn, against each operation of `history`: `None`
/// where a step reports an error (always so where the base lengths differ).
pub open spec fn rebase(op: Seq<OpView>, history: Seq<Seq<OpView>>) -> Option<Seq<OpView>>
    decreases history.len(),
{
    if history.len() == 0 {
        Some(op)
    } else if base_len_of(op) != base_len_of(history[0]) {
        None
    } else {
        match transformed_ops(op, history[0]) {
            Some(p) => rebase(p.0, history.drop_first()),
            None => None,
        }
    }
}

/// The message of an operation whose result would be too long.
pub open spec fn too_long_message(len: nat) -> Seq<char> {
    "Operation too long: "@ + decimal(len)
}

/// The message of an operation against a revision that does not exist yet.
pub open spec fn invalid_revision_message() -> Seq<char> {
    "Invalid revision"@
}

/// What applying an operation that is already transformed to a text comes
/// to: the operation, or the message of the error.
pub open spec fn commit_outcome(text: Seq<char>, op: Seq<OpView>) -> Result<Seq<OpView>, Seq<char>> {
    if target_len_of(op) > MAX_TARGET_LEN {
        Err(too_long_message(target_len_of(op)))
    } else if text.len() != base_len_of(op) {
        Err(incompatible_lengths())
    } else {
        Ok(op)
    }
}

/// What applying an operation against revision `rev` to a document with
/// text `text` and history `history` comes to: the operation as it is
/// applied, or the message of the error.
pub open spec fn edit_outcome(
    text: Seq<char>,
    history: Seq<Seq<OpView>>,
    op: Seq<OpView>,
    rev: u64,
) -> Result<Seq<OpView>, Seq<char>> {
    if rev > history.len() {
        Err(invalid_revision_message())
    } else {
        match rebase(op, history.subrange(rev as int, history.len() as int)) {
            None => Err(incompatible_lengths()),
            Some(p) => commit_outcome(text, p),
        }
    }
}

/// After an operation `p` is committed: the text is what `p` makes of the
/// old text, and the history has one more entry, carrying `op`'s client and
/// revision and the operations `p`.
pub open spec fn committed(old: Document, new: Document, op: UserOperation, p: Seq<OpView>) -> bool {
    &&& new.state.text@ == apply_ops(p, old.state.text@)
    &&& new.state.operations@.len() == old.state.operations@.len() + 1
    &&& new.state.operations@.take(old.state.operations@.len() as int) == old.state.operations@
    &&& new.state.operations@.last().client_id == op.client_id
    &&& new.state.operations@.last().revision == op.revision
    &&& op_seq_ops(new.state.operations@.last().operation) == p
    &&& new.initial == old.initial
}

/// An applied operation: it fit its text, and what it produced is short.
pub open spec fn applied_op_ok(o: Seq<OpView>) -> bool {
    &&& base_len_of(o) <= isize::MAX
    &&& target_len_of(o) <= MAX_TARGET_LEN
}

impl UserOperation {
    /// The operation's lengths are far enough from the machine's limits that
    /// transforming it cannot overflow a counter.
    pub open spec fn within_limits(&self) -> bool {
        &&& lengths_fit(op_seq_ops(self.operation))
        &&& inserted_len_of(op_seq_ops(self.operation)) + 2 * MAX_TARGET_LEN <= isize::MAX
    }
}

impl Document {
    /// The text is no longer than a `String` can be, and every applied
    /// operation is one that `apply_operation` accepts.
    pub open spec fn wf(&self) -> bool {
        &&& self.state.text@.len() <= isize::MAX
        &&& forall|i: int|
            0 <= i < self.state.operations@.len() ==> #[trigger] applied_op_ok(
                op_seq_ops(self.state.operations@[i].operation),
            )
        &&& forall|i: int|
            0 <= i < self.state.operations@.len()
                ==> #[trigger] self.state.operations@[i].revision.spec_inner() <= i
        &&& self.state.operations@.len() > 0 ==> self.state.text@.len() <= MAX_TARGET_LEN
        &&& replay(self.initial@, history_ops(self.state.operations@)) == Some(self.state.text@)
    }

    pub fn new(text: String) -> (r: Self)
        requires
            text@.len() <= isize::MAX,
        ensures
            r.wf(),
            r.state.text == text,
            r.state.operations@.len() == 0,
            r.initial@ == text@,
    {
        let ghost initial = text@;
        Self { state: DocumentState { text, operations: Vec::new() }, initial: Ghost(initial) }
    }

    /// Applies an operation that is already transformed against the whole
    /// history: it is refused where it would produce more than
    /// `MAX_TARGET_LEN` characters or does not fit the text; otherwise the
    /// text becomes what it makes of it and it joins the history. On an
    /// error nothing changes.
    pub fn commit_operation(&mut self, operation: UserOperation) -> (r: Result<(), String>)
        requires
            old(self).wf(),
            lengths_fit(op_seq_ops(operation.operation)),
            operation.revision.spec_inner() <= old(self).state.operations@.len(),
        ensures
            final(self).wf(),
            match commit_outcome(old(self).state.text@, op_seq_ops(operation.operation)) {
                Ok(p) => r is Ok && committed(*old(self), *final(self), operation, p),
                Err(m) => {
                    &&& r matches Err(e) && e@ == m
                    &&& *final(self) == *old(self)
                },
            },
    {
        let ghost p = op_seq_ops(operation.operation);
        let target = op_seq_target_len(&operation.operation);
        if target > MAX_TARGET_LEN {
            let mut message = "Operation too long: ".to_string();
            append_decimal(&mut message, target);
            return Err(message);
        }
        match op_seq_apply(&operation.operation, self.state.text.as_str()) {
            Ok(new_text) => {
                proof {
                    lemma_apply_len(p, self.state.text@);
                }
                let ghost old_ops = self.state.operations@;
                let ghost old_text = self.state.text@;
                let ghost rev = operation.revision;
                self.state.text = new_text;
                self.state.operations.push(operation);
                assert(self.state.operations@.take(old_ops.len() as int) =~= old_ops);
                assert forall|k: int| 0 <= k < self.state.operations@.len() implies #[trigger] applied_op_ok(
                    op_seq_ops(self.state.operations@[k].operation),
                ) by {
                    if k < old_ops.len() {
                        assert(self.state.operations@[k] == old_ops[k]);
                    }
                }
                assert forall|k: int| 0 <= k < self.state.operations@.len() implies #[trigger] self.state.operations@[k].revision.spec_inner() <= k by {
                    if k < old_ops.len() {
                        assert(self.state.operations@[k] == old_ops[k]);
                    } else {
                        assert(self.state.operations@[k].revision == rev);
                    }
                }
                proof {
                    let h = history_ops(self.state.operations@);
                    assert(h.drop_last() =~= history_ops(old_ops));
                    assert(h.last() == p);
                    assert(replay(self.initial@, h) == Some(self.state.text@));
                }
                Ok(())
            },
            Err(e) => Err(ot_error_message(&e)),
        }
    }

    /// Applies an operation of a client: it is transformed against each
    /// operation applied since the revision that the client had seen, and
    /// then applied to the text and added to the history. On an error
    /// nothing changes.
    pub fn apply_operation(&mut self, operation: UserOperation) -> (r: Result<(), String>)
        requires
            old(self).wf(),
            operation.within_limits(),
        ensures
            final(self).wf(),
            match edit_outcome(
                old(self).state.text@,
                history_ops(old(self).state.operations@),
                op_seq_ops(operation.operation),
                operation.revision.spec_inner(),
            ) {
                Ok(p) => r is Ok && committed(*old(self), *final(self), operation, p),
                Err(m) => {
                    &&& r matches Err(e) && e@ == m
                    &&& *final(self) == *old(self)
                },
            },
    {
        let len = self.state.operations.len();
        let rev = operation.revision.inner();
        let ghost hist = history_ops(self.state.operations@);
        if rev > len as u64 {
            return Err("Invalid revision".to_string());
        }
        let ghost orig = operation;
        let UserOperation { client_id, revision, operation: mut current } = operation;
        let ghost op0 = op_seq_ops(current);
        let mut i: usize = rev as usize;
        while i < len
            invariant
                self.wf(),
                self == old(self),
                len == self.state.operations@.len(),
                hist == history_ops(self.state.operations@),
                rev <= i <= len,
                rebase(op0, hist.subrange(rev as int, len as int)) == rebase(
                    op_seq_ops(current),
                    hist.subrange(i as int, len as int),
                ),
                lengths_fit(op_seq_ops(current)),
                inserted_len_of(op_seq_ops(current)) == inserted_len_of(op0),
                inserted_len_of(op0) + 2 * MAX_TARGET_LEN <= isize::MAX,
                i == rev ==> op_seq_ops(current) == op0,
                i > rev ==> base_len_of(op_seq_ops(current)) <= MAX_TARGET_LEN,
                lengths_fit(op0),
                op0 == op_seq_ops(orig.operation),
                rev == orig.revision.spec_inner(),
                client_id == orig.client_id,
                revision == orig.revision,
                operation == orig,
            decreases len - i,
        {
            let ghost h = op_seq_ops(self.state.operations@[i as int].operation);
            proof {
                assert(applied_op_ok(h));
                lemma_inserted_le_target(h);
            }
            match op_seq_transform(&current, &self.state.operations[i].operation) {
                Ok(pair) => {
                    current = pair.0;
                    proof {
                        assert(hist.subrange(i as int, len as int)[0] == h);
                        assert(hist.subrange(i as int, len as int).drop_first() =~= hist.subrange(
                            i + 1,
                            len as int,
                        ));
                    }
                },
                Err(e) => {
                    proof {
                        assert(hist.subrange(i as int, len as int)[0] == h);
                        assert(rebase(op_seq_ops(current), hist.subrange(i as int, len as int)) is None);
                    }
                    return Err(ot_error_message(&e));
                },
            }
            i += 1;
        }
        let ghost p = op_seq_ops(current);
        assert(hist.subrange(len as int, len as int) =~= Seq::<Seq<OpView>>::empty());
        assert(rebase(op0, hist.subrange(rev as int, len as int)) == Some(p));
        self.commit_operation(UserOperation { client_id, revision, operation: current })
    }
}

/// The transforms happen in history order, oldest first: against no
/// operation an edit is unchanged, and against a history followed by one
/// more operation `x`, it is the edit transformed against the history and
/// then the result transformed against `x` (refused where either step is:
/// where the base lengths differ, or where the transform reports an error).
/// So an edit against revision `r` meets `h[r]`, `h[r + 1]`, ... in turn.
pub proof fn law_rebase_in_history_order(op: Seq<OpView>, h: Seq<Seq<OpView>>, x: Seq<OpView>)
    ensures
        rebase(op, Seq::<Seq<OpView>>::empty()) == Some(op),
        rebase(op, h.push(x)) == match rebase(op, h) {
            Some(p) => if base_len_of(p) != base_len_of(x) {
                None
            } else {
                match transformed_ops(p, x) {
                    Some(q) => Some(q.0),
                    None => None,
                }
            },
            None => None,
        },
    decreases h.len(),
{
    if h.len() == 0 {
        assert(h.push(x)[0] == x);
        assert(h.push(x).drop_first() =~= Seq::<Seq<OpView>>::empty());
        if base_len_of(op) == base_len_of(x) {
            if let Some(p) = transformed_ops(op, x) {
                assert(rebase(p.0, Seq::<Seq<OpView>>::empty()) == Some(p.0));
            }
        }
    } else {
        assert(h.push(x)[0] == h[0]);
        assert(h.push(x).drop_first() =~= h.drop_first().push(x));
        if base_len_of(op) == base_len_of(h[0]) {
            if let Some(p) = transformed_ops(op, h[0]) {
                law_rebase_in_history_order(p.0, h.drop_first(), x);
            }
        }
    }
}

/// Where a history replays, so does each of its prefixes.
pub proof fn lemma_replay_prefix(initial: Seq<char>, history: Seq<Seq<OpView>>, k: int)
    requires
        replay(initial, history) is Some,
        0 <= k <= history.len(),
    ensures
        replay(initial, history.take(k)) is Some,
    decreases history.len(),
{
    if k < history.len() {
        lemma_replay_prefix(initial, history.drop_last(), k);
        assert(history.drop_last().take(k) =~= history.take(k));
    } else {
        assert(history.take(k) =~= history);
    }
}

/// What every document keeps, from its creation (`Document::new` makes the
/// text its `initial` text) through every call of `apply_operation`,
/// `commit_operation` or `edit_document`, applied or refused (each keeps
/// `wf` and `initial`): applying the stored operations in turn to the
/// initial text fits at each step and ends in the text; each stored
/// operation's revision is at most its position; and once an operation is
/// applied, the text has at most `MAX_TARGET_LEN` characters.
pub proof fn law_history_replays_to_text(doc: Document)
    requires
        doc.wf(),
    ensures
        replay(doc.initial@, history_ops(doc.state.operations@)) == Some(doc.state.text@),
        forall|k: int|
            0 <= k <= doc.state.operations@.len() ==> #[trigger] replay(
                doc.initial@,
                history_ops(doc.state.operations@).take(k),
            ) is Some,
        forall|i: int|
            0 <= i < doc.state.operations@.len() ==> #[trigger] doc.state.operations@[i].revision.spec_inner()
                <= i,
        doc.state.operations@.len() > 0 ==> doc.state.text@.len() <= MAX_TARGET_LEN,
{
    assert forall|k: int| 0 <= k <= doc.state.operations@.len() implies #[trigger] replay(
        doc.initial@,
        history_ops(doc.state.operations@).take(k),
    ) is Some by {
        lemma_replay_prefix(doc.initial@, history_ops(doc.state.operations@), k);
    }
}

/// An edit from a client that has seen every applied operation, spanning
/// to the end of the text and with a short enough result, is applied as the
/// client sent it: the text becomes the text up to the offset followed by
/// the new text.
pub proof fn law_current_edit_applies(doc: Document, raw: RawOperation, rev: u64)
    requires
        rev == doc.state.operations@.len(),
        doc.state.text@.len() == raw.range_offset + raw.range_length,
        raw.range_offset + raw.text@.len() <= MAX_TARGET_LEN,
    ensures
        edit_outcome(doc.state.text@, history_ops(doc.state.operations@), raw.ops(), rev) == Ok::<
            Seq<OpView>,
            Seq<char>,
        >(raw.ops()),
        apply_ops(raw.ops(), doc.state.text@) == doc.state.text@.take(raw.range_offset as int)
            + raw.text@,
{
    let hist = history_ops(doc.state.operations@);
    assert(hist.subrange(rev as int, hist.len() as int) =~= Seq::<Seq<OpView>>::empty());
    raw.lemma_edit_lengths();
    raw.law_edit_applies(doc.state.text@);
}

} // verus!
