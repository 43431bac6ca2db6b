//! Operation sequences on text, as the `operational_transform` crate keeps
//! them, described by the list of operations they hold.
use vstd::prelude::*;
use operational_transform::OTError;
use operational_transform::OperationSeq;

verus! {

#[verifier::external_type_specification]
#[verifier::external_body]
pub struct ExOperationSeq(OperationSeq);

#[verifier::external_type_specification]
#[verifier::external_body]
pub struct ExOTError(OTError);

/// One operation of a sequence, as a plain value: move the cursor over
/// `n` characters, delete `n` characters, or insert a run of characters.
pub enum OpView {
    Retain(u64),
    Delete(u64),
    Insert(Seq<char>),
}

/// The operations that an `OperationSeq` holds, in order.
pub uninterp spec fn op_seq_ops(s: OperationSeq) -> Seq<OpView>;

/// The operations of the two sequences that `OperationSeq::transform`
/// produces from two sequences with the given operations, or `None` where
/// it reports an error although the two sequences have equal base lengths.
pub uninterp spec fn transformed_ops(a: Seq<OpView>, b: Seq<OpView>) -> Option<(Seq<OpView>, Seq<OpView>)>;

/// Characters of the input that an operation consumes.
pub open spec fn op_base(o: OpView) -> nat {
    match o {
        OpView::Retain(n) => n as nat,
        OpView::Delete(n) => n as nat,
        OpView::Insert(_) => 0,
    }
}

/// Characters of the output that an operation produces.
pub open spec fn op_target(o: OpView) -> nat {
    match o {
        OpView::Retain(n) => n as nat,
        OpView::Delete(_) => 0,
        OpView::Insert(s) => s.len(),
    }
}

/// Characters that an operation inserts.
pub open spec fn op_inserted(o: OpView) -> nat {
    match o {
        OpView::Insert(s) => s.len(),
        _ => 0,
    }
}

/// The sum of a weight over a list of operations.
pub open spec fn sum_of(ops: Seq<OpView>, w: spec_fn(OpView) -> nat) -> nat
    decreases ops.len(),
{
    if ops.len() == 0 {
        0
    } else {
        w(ops[0]) + sum_of(ops.drop_first(), w)
    }
}

/// The length of the text that a list of operations applies to.
pub open spec fn base_len_of(ops: Seq<OpView>) -> nat {
    sum_of(ops, |o: OpView| op_base(o))
}

/// The length of the text that a list of operations produces.
pub open spec fn target_len_of(ops: Seq<OpView>) -> nat {
    sum_of(ops, |o: OpView| op_target(o))
}

/// The number of characters that a list of operations inserts.
pub open spec fn inserted_len_of(ops: Seq<OpView>) -> nat {
    sum_of(ops, |o: OpView| op_inserted(o))
}

/// Both lengths of a list of operations fit in a `usize`, as the counters
/// that an `OperationSeq` keeps beside its operations.
pub open spec fn lengths_fit(ops: Seq<OpView>) -> bool {
    &&& base_len_of(ops) <= usize::MAX
    &&& target_len_of(ops) <= usize::MAX
}

/// The operations after `retain(n)`: nothing for zero, else the last
/// retain grows or a new one is appended.
pub open spec fn pushed_retain(ops: Seq<OpView>, n: u64) -> Seq<OpView> {
    if n == 0 {
        ops
    } else if ops.len() > 0 && ops.last() is Retain {
        ops.update(ops.len() - 1, OpView::Retain((ops.last()->Retain_0 + n) as u64))
    } else {
        ops.push(OpView::Retain(n))
    }
}

/// The operations after `delete(n)`: nothing for zero, else the last
/// delete grows or a new one is appended.
pub open spec fn pushed_delete(ops: Seq<OpView>, n: u64) -> Seq<OpView> {
    if n == 0 {
        ops
    } else if ops.len() > 0 && ops.last() is Delete {
        ops.update(ops.len() - 1, OpView::Delete((ops.last()->Delete_0 + n) as u64))
    } else {
        ops.push(OpView::Delete(n))
    }
}

/// The operations after `insert(s)`: nothing for an empty string; else the
/// text joins a last insert, or an insert just before a last delete; before
/// a last delete it is placed ahead of it; otherwise it is appended.
pub open spec fn pushed_insert(ops: Seq<OpView>, s: Seq<char>) -> Seq<OpView> {
    if s.len() == 0 {
        ops
    } else if ops.len() > 0 && ops.last() is Insert {
        ops.update(ops.len() - 1, OpView::Insert(ops.last()->Insert_0 + s))
    } else if ops.len() > 1 && ops[ops.len() - 2] is Insert && ops.last() is Delete {
        ops.update(ops.len() - 2, OpView::Insert(ops[ops.len() - 2]->Insert_0 + s))
    } else if ops.len() > 0 && ops.last() is Delete {
        ops.update(ops.len() - 1, OpView::Insert(s)).push(ops.last())
    } else {
        ops.push(OpView::Insert(s))
    }
}

/// The smaller of two lengths.
pub open spec fn min_len(a: nat, b: nat) -> nat {
    if a <= b {
        a
    } else {
        b
    }
}

/// What a list of operations makes of a text: a retain copies characters, a
/// delete skips them (both stop at the end of the text), an insert adds its
/// characters; what is left of the text after the last operation is dropped.
pub open spec fn apply_ops(ops: Seq<OpView>, s: Seq<char>) -> Seq<char>
    decreases ops.len(),
{
    if ops.len() == 0 {
        Seq::<char>::empty()
    } else {
        match ops[0] {
            OpView::Retain(n) => {
                let k = min_len(n as nat, s.len()) as int;
                s.take(k) + apply_ops(ops.drop_first(), s.skip(k))
            },
            OpView::Delete(n) => {
                let k = min_len(n as nat, s.len()) as int;
                apply_ops(ops.drop_first(), s.skip(k))
            },
            OpView::Insert(t) => t + apply_ops(ops.drop_first(), s),
        }
    }
}

/// The message that `OTError` displays.
pub open spec fn incompatible_lengths() -> Seq<char> {
    "incompatible lengths"@
}

/// `OperationSeq::default()`: a sequence without operations.
#[verifier::external_body]
pub(crate) fn op_seq_new() -> (r: OperationSeq)
    ensures
        op_seq_ops(r) == Seq::<OpView>::empty(),
{
    OperationSeq::default()
}

/// `OperationSeq::retain`: merges into a last retain or appends one, and
/// adds `n` to both length counters (which must not overflow).
#[verifier::external_body]
pub(crate) fn op_seq_retain(s: &mut OperationSeq, n: u64)
    requires
        lengths_fit(op_seq_ops(*old(s))),
        base_len_of(op_seq_ops(*old(s))) + n <= usize::MAX,
        target_len_of(op_seq_ops(*old(s))) + n <= usize::MAX,
    ensures
        op_seq_ops(*final(s)) == pushed_retain(op_seq_ops(*old(s)), n),
{
    s.retain(n)
}

/// `OperationSeq::delete`: merges into a last delete or appends one, and adds
/// `n` to the base length counter (which must not overflow).
#[verifier::external_body]
pub(crate) fn op_seq_delete(s: &mut OperationSeq, n: u64)
    requires
        lengths_fit(op_seq_ops(*old(s))),
        base_len_of(op_seq_ops(*old(s))) + n <= usize::MAX,
    ensures
        op_seq_ops(*final(s)) == pushed_delete(op_seq_ops(*old(s)), n),
{
    s.delete(n)
}

/// `OperationSeq::insert`: places the text as `pushed_insert` describes and
/// adds its character count to the target length counter (which must not
/// overflow).
#[verifier::external_body]
pub(crate) fn op_seq_insert(s: &mut OperationSeq, text: &str)
    requires
        lengths_fit(op_seq_ops(*old(s))),
        target_len_of(op_seq_ops(*old(s))) + text@.len() <= usize::MAX,
    ensures
        op_seq_ops(*final(s)) == pushed_insert(op_seq_ops(*old(s)), text@),
{
    s.insert(text)
}

/// `OperationSeq::target_len`: the target length counter, which equals the
/// sum over the operations wherever that sum fits in a `usize`.
#[verifier::external_body]
pub(crate) fn op_seq_target_len(s: &OperationSeq) -> (r: usize)
    ensures
        target_len_of(op_seq_ops(*s)) <= usize::MAX ==> r == target_len_of(op_seq_ops(*s)),
{
    s.target_len()
}

/// `OperationSeq::apply`: an error unless the text has as many characters
/// as the base length counter; otherwise the text that `apply_ops` gives.
#[verifier::external_body]
pub(crate) fn op_seq_apply(s: &OperationSeq, text: &str) -> (r: Result<String, OTError>)
    ensures
        base_len_of(op_seq_ops(*s)) <= usize::MAX ==> (r is Ok <==> text@.len() == base_len_of(
            op_seq_ops(*s),
        )),
        base_len_of(op_seq_ops(*s)) <= usize::MAX ==> (r matches Ok(t) ==> t@ == apply_ops(
            op_seq_ops(*s),
            text@,
        )),
{
    s.apply(text)
}

/// `OperationSeq::transform`: an error where the base lengths differ;
/// otherwise the pair named by `transformed_ops`. As its documentation
/// promises, applying `a` then the second result gives the same text as
/// applying `b` then the first. Of a pair that it returns,
/// the source shows that the first consumes what `b` produces and the second
/// what `a` produces, that each inserts what its own argument inserts, and
/// that both produce the same length. It panics where a counter of the
/// result would overflow, which `requires` leaves out.
#[verifier::external_body]
pub(crate) fn op_seq_transform(a: &OperationSeq, b: &OperationSeq) -> (r: Result<
    (OperationSeq, OperationSeq),
    OTError,
>)
    requires
        lengths_fit(op_seq_ops(*a)),
        lengths_fit(op_seq_ops(*b)),
        base_len_of(op_seq_ops(*a)) == base_len_of(op_seq_ops(*b)) ==> base_len_of(op_seq_ops(*a))
            + inserted_len_of(op_seq_ops(*a)) + inserted_len_of(op_seq_ops(*b)) <= usize::MAX,
    ensures
        base_len_of(op_seq_ops(*a)) != base_len_of(op_seq_ops(*b)) ==> r is Err,
        base_len_of(op_seq_ops(*a)) == base_len_of(op_seq_ops(*b)) ==> (r is Ok <==> transformed_ops(
            op_seq_ops(*a),
            op_seq_ops(*b),
        ) is Some),
        r matches Ok(p) ==> {
            &&& transformed_ops(op_seq_ops(*a), op_seq_ops(*b)) == Some(
                (op_seq_ops(p.0), op_seq_ops(p.1)),
            )
            &&& base_len_of(op_seq_ops(p.0)) == target_len_of(op_seq_ops(*b))
            &&& base_len_of(op_seq_ops(p.1)) == target_len_of(op_seq_ops(*a))
            &&& inserted_len_of(op_seq_ops(p.0)) == inserted_len_of(op_seq_ops(*a))
            &&& inserted_len_of(op_seq_ops(p.1)) == inserted_len_of(op_seq_ops(*b))
            &&& target_len_of(op_seq_ops(p.0)) == target_len_of(op_seq_ops(p.1))
            &&& target_len_of(op_seq_ops(p.0)) <= base_len_of(op_seq_ops(*a)) + inserted_len_of(
                op_seq_ops(*a),
            ) + inserted_len_of(op_seq_ops(*b))
            &&& forall|s: Seq<char>|
                s.len() == base_len_of(op_seq_ops(*a)) ==> #[trigger] apply_ops(
                    op_seq_ops(p.1),
                    apply_ops(op_seq_ops(*a), s),
                ) == apply_ops(op_seq_ops(p.0), apply_ops(op_seq_ops(*b), s))
        },
{
    a.transform(b)
}

/// The text of an `OTError`, which its `Display` impl writes as
/// "incompatible lengths".
#[verifier::external_body]
pub(crate) fn ot_error_message(e: &OTError) -> (r: String)
    ensures
        r@ == incompatible_lengths(),
{
    e.to_string()
}

/// The three sums grow by the weights of an appended operation.
pub proof fn lemma_sum_push(ops: Seq<OpView>, x: OpView, w: spec_fn(OpView) -> nat)
    ensures
        sum_of(ops.push(x), w) == sum_of(ops, w) + w(x),
    decreases ops.len(),
{
    if ops.len() == 0 {
        assert(ops.push(x).drop_first() =~= Seq::<OpView>::empty());
        assert(sum_of(Seq::<OpView>::empty(), w) == 0);
    } else {
        assert(ops.push(x)[0] == ops[0]);
        assert(ops.push(x).drop_first() =~= ops.drop_first().push(x));
        lemma_sum_push(ops.drop_first(), x, w);
    }
}

/// A sum over a concatenation is the sum of the sums.
pub proof fn lemma_sum_concat(a: Seq<OpView>, b: Seq<OpView>, w: spec_fn(OpView) -> nat)
    ensures
        sum_of(a + b, w) == sum_of(a, w) + sum_of(b, w),
    decreases a.len(),
{
    if a.len() == 0 {
        assert(a + b =~= b);
    } else {
        assert((a + b).drop_first() =~= a.drop_first() + b);
        lemma_sum_concat(a.drop_first(), b, w);
    }
}

/// Applying a list that starts with `x`: `x` acts on the front of the text
/// and the rest on what `x` leaves.
pub proof fn lemma_apply_cons(x: OpView, rest: Seq<OpView>, s: Seq<char>)
    ensures
        apply_ops(seq![x] + rest, s) == match x {
            OpView::Retain(n) => {
                let k = min_len(n as nat, s.len()) as int;
                s.take(k) + apply_ops(rest, s.skip(k))
            },
            OpView::Delete(n) => {
                let k = min_len(n as nat, s.len()) as int;
                apply_ops(rest, s.skip(k))
            },
            OpView::Insert(t) => t + apply_ops(rest, s),
        },
{
    assert((seq![x] + rest).drop_first() =~= rest);
    assert((seq![x] + rest)[0] == x);
}

/// Nothing inserts more than it produces.
pub proof fn lemma_inserted_le_target(ops: Seq<OpView>)
    ensures
        inserted_len_of(ops) <= target_len_of(ops),
    decreases ops.len(),
{
    if ops.len() > 0 {
        lemma_inserted_le_target(ops.drop_first());
    }
}

/// Applied to a text of its base length, a list of operations produces a
/// text of its target length.
pub proof fn lemma_apply_len(ops: Seq<OpView>, s: Seq<char>)
    requires
        s.len() == base_len_of(ops),
    ensures
        apply_ops(ops, s).len() == target_len_of(ops),
    decreases ops.len(),
{
    if ops.len() > 0 {
        match ops[0] {
            OpView::Retain(n) => {
                lemma_apply_len(ops.drop_first(), s.skip(n as int));
            },
            OpView::Delete(n) => {
                lemma_apply_len(ops.drop_first(), s.skip(n as int));
            },
            OpView::Insert(t) => {
                lemma_apply_len(ops.drop_first(), s);
            },
        }
    }
}

} // verus!
